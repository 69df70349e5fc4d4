//! What calls of the library come to.
//!
//! Each law speaks of calls that were made, of what they were given and of what they gave back, and
//! says what holds of them for all inputs. `call_ensures(f, args, r)` reads: a call of `f` with
//! `args` returned `r`. A parameter that is a mutable reference stands for what the call changed:
//! `old` of it is the value before the call, and `final` of it the value after.

pub mod codec;
pub mod message;
pub mod requests;
pub mod session;
