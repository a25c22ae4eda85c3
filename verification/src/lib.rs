//! Combinators that attach an asynchronous finalizer to a future or a stream.
//!
//! Each combinator owns the computation it wraps and a factory for the
//! finalizer. Once the wrapped computation completes, the factory is invoked
//! and the finalizer it returns is driven to completion before the combinator
//! reports its own completion.

pub mod future;
pub mod machine;
pub mod runtime;
pub mod stream;
pub mod try_stream;
