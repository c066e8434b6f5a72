# plato_diffusion

Progressive distillation pipeline for room intelligence, verified with Verus.

- `src/config.rs`: `DistillationConfig`, its builders and `validate`.
- `src/correction.rs`: `Correction` and `TrainingExample`; confidences are
  fixed-point integers in millionths (`UNIT` is 1.0).
- `src/store.rs`: `CorrectionStore`, the append-only log of corrections per room:
  diversity, the exact confidence total, the distillation trigger, export of training
  examples, grouping by tile, and the laws that relate them.
- `src/external.rs`: the trusted calls into `uuid` and the system clock.
- `app/`: serialisable copies of the types (serde), floating-point front ends
  (average confidence), and what is floating point throughout:
  `DistillationStats`, `DistillationRecord` and the accuracy simulation.
