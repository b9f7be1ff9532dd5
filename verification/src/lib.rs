//! Small terminal tools: the state machines, text handling and planning
//! logic behind a command shell, a chat client and server, a directory
//! synchroniser, a price viewer, a model chat REPL and a to-do screen.

pub mod text;
pub mod input;
pub mod system_info;
pub mod shell;
pub mod chat_client;
pub mod chat_server;
pub mod sync;
pub mod price;
pub mod llm_chat;
pub mod todo;
