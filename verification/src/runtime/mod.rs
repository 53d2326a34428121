pub mod validator;
pub mod llm_client;
