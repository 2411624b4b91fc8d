pub mod channel;
pub mod context;
pub mod g_select;
pub mod go_runtime;
pub mod make_chan;
pub mod netpoller;
pub mod scheduler;
pub mod select_parse;
pub mod stack;
pub mod sync;
pub mod timer;
