pub mod tokentype;
pub mod token;
pub mod statement;
pub mod scope;
pub mod chunk;
pub mod statement_evals;
