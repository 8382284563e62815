//! Rewrites asynchronous sequence-producing functions into generator state
//! machines, over a plain model of the function's tokens and syntax tree.
//!
//! - `args`: the attribute's argument list (flavor, item types, boxing); a
//!   type ends where `syn`'s type grammar ends.
//! - `capture`: parameter desugaring that keeps drop order, and the lifetimes
//!   that the produced sequence type must carry.
//! - `suspend`: rewriting of `.await`, `yield` and `for await` into explicit
//!   suspension constructs, and their expansion into the steps of the
//!   suspend/resume protocol.
//! - `synth`: the generator body, the return type and the whole transformation.

pub mod args;
pub mod capture;
pub mod suspend;
pub mod synth;
