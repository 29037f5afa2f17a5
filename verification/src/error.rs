//! The library's error type. Configuration and input errors are fatal to a
//! run; engine, IO and serialization failures reach the library as the
//! text of the outside error they were converted from.

use vstd::prelude::*;

verus! {

#[derive(Clone, Debug, PartialEq)]
pub enum BenchError {
    Io(String),
    Json(String),
    Arrow(String),
    Delta(String),
    DataFusion(String),
    InvalidArgument(String),
}

pub type BenchResult<T> = Result<T, BenchError>;

impl BenchError {
    /// The rendered error text: a taxonomy prefix followed by the detail.
    pub open spec fn spec_message(&self) -> Seq<char> {
        match self {
            BenchError::Io(m) => "io error: "@ + m@,
            BenchError::Json(m) => "json error: "@ + m@,
            BenchError::Arrow(m) => "arrow error: "@ + m@,
            BenchError::Delta(m) => "delta error: "@ + m@,
            BenchError::DataFusion(m) => "datafusion error: "@ + m@,
            BenchError::InvalidArgument(m) => "invalid argument: "@ + m@,
        }
    }

    pub fn message(&self) -> (r: String)
        ensures
            r@ == self.spec_message(),
    {
        let mut out = String::new();
        match self {
            BenchError::Io(m) => {
                out.append("io error: ");
                out.append(m.as_str());
            },
            BenchError::Json(m) => {
                out.append("json error: ");
                out.append(m.as_str());
            },
            BenchError::Arrow(m) => {
                out.append("arrow error: ");
                out.append(m.as_str());
            },
            BenchError::Delta(m) => {
                out.append("delta error: ");
                out.append(m.as_str());
            },
            BenchError::DataFusion(m) => {
                out.append("datafusion error: ");
                out.append(m.as_str());
            },
            BenchError::InvalidArgument(m) => {
                out.append("invalid argument: ");
                out.append(m.as_str());
            },
        }
        out
    }
}

} // verus!
