//! Keeps records at a registrar in step with the address of the machine.
//!
//! A worker per record finds the address out, asks the registrar what the
//! record holds, writes where the two differ, and after a change hands out
//! the commands that the operator wants run. Everything here decides; it is
//! the caller that runs commands, sends requests and sleeps.

pub mod address;
pub mod aliyun;
pub mod canonical;
pub mod cloudflare;
pub mod cmd;
pub mod config;
pub mod dispatch;
pub mod function;
pub mod init;
pub mod json;
pub mod literal;
pub mod record;
pub mod registrar;
pub mod resolver;
pub mod text;
pub mod worker;
