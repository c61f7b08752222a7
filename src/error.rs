use vstd::prelude::*;
use vstd::string::StringExecFns;

verus! {

/// The category carried by every failure that comes from a violated shape rule.
pub open spec fn dimension_error_kind() -> Seq<char> {
    "DimensionError"@
}

/// A failure raised by an operation: a short category and a readable message.
pub struct Error {
    pub error_type: String,
    pub message: String,
}

impl Error {
    pub fn new(message: String, error_type: String) -> (e: Error)
        ensures
            e.message@ == message@,
            e.error_type@ == error_type@,
    {
        Error { message, error_type }
    }

    /// A failure of category "DimensionError" with the given message.
    pub fn dimension(message: &str) -> (e: Error)
        ensures
            e.error_type@ == dimension_error_kind(),
            e.message@ == message@,
    {
        proof {
            reveal_strlit("DimensionError");
        }
        Error::new(String::from_str(message), String::from_str("DimensionError"))
    }

    /// Whether this failure is of category "DimensionError".
    pub open spec fn is_dimension(&self) -> bool {
        self.error_type@ == dimension_error_kind()
    }

    /// The failure as one line: the category, a colon, a space, then the message.
    pub fn describe(&self) -> (s: String)
        ensures
            s@ == self.error_type@ + ": "@ + self.message@,
    {
        let mut s = self.error_type.clone();
        s.append(": ");
        s.append(self.message.as_str());
        s
    }
}

} // verus!
