pub mod activeca;
pub mod addr;
pub mod caconn;
pub mod channel;
pub mod channel_v1;
pub mod channelhandler;
pub mod channelheap;
pub mod channeltrace;
pub mod clks;
pub mod conf;
pub mod conn;
pub mod connected;
pub mod connlist;
pub mod connset;
pub mod container;
pub mod daemon;
pub mod events;
pub mod extraopts;
pub mod fetchmonitoring;
pub mod gather;
pub mod locallog;
pub mod measure;
pub mod merger;
pub mod metrics;
pub mod metrics_types;
pub mod offsets;
pub mod procstat;
pub mod readenum;
pub mod regexsel;
pub mod running;
pub mod seqlemmas;
pub mod signal;
pub mod status_v1;
pub mod streamlog;
pub mod strorder;
pub mod subfr;
pub mod subfut;
pub mod valuetype;
