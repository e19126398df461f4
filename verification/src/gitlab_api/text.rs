//! The errors of the service as text, for the user to read.

use crate::gitlab_api::types::{GraphQLErrorLocation, GraphQLErrorResponse, GraphQLErrorsResponse};
use crate::numerals::{decimal, decimal_text};
use vstd::prelude::*;
use vstd::string::*;

verus! {

/// A location as text.
pub open spec fn location_text(location: GraphQLErrorLocation) -> Seq<char> {
    "line "@ + decimal(location.line as nat) + ", column "@ + decimal(location.column as nat)
}

/// The first `n` locations as text, with a comma and a space between them.
pub open spec fn locations_text(locations: Seq<GraphQLErrorLocation>, n: int) -> Seq<char>
    decreases n,
{
    if n <= 0 {
        Seq::empty()
    } else if n == 1 {
        location_text(locations[0])
    } else {
        locations_text(locations, n - 1) + ", "@ + location_text(locations[n - 1])
    }
}

/// One error as text: its message and, where it has any, its locations.
pub open spec fn error_text(error: GraphQLErrorResponse) -> Seq<char> {
    if error.locations@.len() == 0 {
        error.message@
    } else {
        error.message@ + " (at "@ + locations_text(error.locations@, error.locations@.len() as int)
            + ")"@
    }
}

/// The first `n` errors, each on a line of its own with its number.
pub open spec fn numbered_errors(errors: Seq<GraphQLErrorResponse>, n: int) -> Seq<char>
    decreases n,
{
    if n <= 0 {
        Seq::empty()
    } else {
        numbered_errors(errors, n - 1) + "  "@ + decimal(n as nat) + ". "@ + error_text(
            errors[n - 1],
        ) + "\n"@
    }
}

/// A list of errors as text.
pub open spec fn errors_text(errors: Seq<GraphQLErrorResponse>) -> Seq<char> {
    if errors.len() == 0 {
        "No GraphQL errors"@
    } else if errors.len() == 1 {
        "GraphQL error: "@ + error_text(errors[0])
    } else {
        decimal(errors.len()) + " GraphQL errors:\n"@ + numbered_errors(errors, errors.len() as int)
    }
}

impl GraphQLErrorLocation {
    pub fn to_string(&self) -> (r: String)
        ensures
            r@ == location_text(*self),
    {
        let mut r = "line ".to_owned();
        r.append(decimal_text(self.line).as_str());
        r.append(", column ");
        r.append(decimal_text(self.column).as_str());
        r
    }
}

impl GraphQLErrorResponse {
    pub fn to_string(&self) -> (r: String)
        ensures
            r@ == error_text(*self),
    {
        let mut r = self.message.clone();
        if self.locations.len() > 0 {
            r.append(" (at ");
            let ghost head = r@;
            let mut i: usize = 0;
            while i < self.locations.len()
                invariant
                    i <= self.locations.len(),
                    r@ == head + locations_text(self.locations@, i as int),
                decreases self.locations.len() - i,
            {
                if i > 0 {
                    r.append(", ");
                }
                r.append(self.locations[i].to_string().as_str());
                proof {
                    assert(r@ =~= head + locations_text(self.locations@, i + 1));
                }
                i = i + 1;
            }
            r.append(")");
            proof {
                assert(r@ =~= error_text(*self));
            }
        }
        r
    }
}

impl GraphQLErrorsResponse {
    pub fn to_string(&self) -> (r: String)
        ensures
            r@ == errors_text(self.0@),
    {
        if self.0.len() == 0 {
            "No GraphQL errors".to_owned()
        } else if self.0.len() == 1 {
            let mut r = "GraphQL error: ".to_owned();
            r.append(self.0[0].to_string().as_str());
            r
        } else {
            let mut r = decimal_text(self.0.len() as u64);
            r.append(" GraphQL errors:\n");
            let ghost head = r@;
            let mut i: usize = 0;
            while i < self.0.len()
                invariant
                    i <= self.0.len(),
                    r@ == head + numbered_errors(self.0@, i as int),
                decreases self.0.len() - i,
            {
                let ghost before = r@;
                r.append("  ");
                r.append(decimal_text(i as u64 + 1).as_str());
                r.append(". ");
                r.append(self.0[i].to_string().as_str());
                r.append("\n");
                proof {
                    assert(r@ =~= head + numbered_errors(self.0@, i + 1));
                }
                i = i + 1;
            }
            r
        }
    }
}

} // verus!
