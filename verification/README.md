# asyncos

A Verus-verified library with three parts, and a program around it.

* **Priority executor** (`src/priority.rs`, `ready_task.rs`, `order.rs`,
  `ready_queue.rs`, `reactor.rs`, `task.rs`, `executor.rs`, `clock.rs`):
  tasks in four classes are served by class, first in first out within a
  class, with an anti-starvation rule that lets a task overtake a
  neighbouring class once it has waited two seconds longer. The reactor's
  task table, the poll step of a task and the run-loop decisions are
  verified; threads, locks and wakers live in `app/executor.rs`.
* **Crawler benchmark logic** (`text.rs`, `targets.rs`, `page_text.rs`,
  `metric.rs`, `process_tree.rs`, `peak.rs`): reading the target list,
  keeping the text of a page's body (through `scraper`), the worker report
  line in both directions, and the memory of a process tree. Network, file
  and process work, timing and statistics live in `app/crawler/`.
* **SD card protocol** (`sd_init.rs`, `sd_cmd.rs`, `sd_fifo.rs`): the
  initialisation sequence and the issuing of one command as state
  machines, and the packing of FIFO words into blocks. `app/sdmmc.rs`
  carries out their actions on the controller's registers, through a
  trait that the board support code implements.

`app/main.rs` runs the three crawlers and compares them, or, with
`--priority-demo`, the scheduling demo.
