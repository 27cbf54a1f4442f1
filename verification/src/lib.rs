use vstd::prelude::*;

pub mod a2a;
pub mod agent;
pub mod agui;
pub mod anthropic;
pub mod azfunc;
pub mod azure_openai;
pub mod azure_persistent;
pub mod calendar;
pub mod compaction;
pub mod completions;
pub mod context;
pub mod copilot_studio;
pub mod cosmos;
pub mod counter;
pub mod debug;
pub mod declarative;
pub mod delegating;
pub mod devui;
pub mod durabletask;
pub mod encoding;
pub mod error;
pub mod evaluation;
pub mod foundry;
pub mod github_copilot;
pub mod hosting;
pub mod http;
pub mod ids;
pub mod json;
pub mod lines;
pub mod mcp;
pub mod mem0;
pub mod middleware;
pub mod ollama;
pub mod openai;
pub mod orchestrations;
pub mod redact;
pub mod secret;
pub mod session;
pub mod skills;
pub mod streaming;
pub mod structured_output;
pub mod table;
pub mod text;
pub mod time;
pub mod tools;
pub mod types;
pub mod urlencoding;

verus! {

} // verus!
