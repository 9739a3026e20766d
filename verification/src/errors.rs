//! The diagnostic taxonomy. Resolution-time failures are recovered locally:
//! the engine always produces a best-effort string and appends one of these
//! diagnostics; construction-time failures (duplicate ids, duplicate function
//! names) are returned to the caller as explicit errors.

use vstd::prelude::*;

verus! {

/// A soft error raised while adding resources, registering functions, or
/// resolving a pattern. Resolution never aborts on one of these: the output
/// carries an inline fallback token and the diagnostic is appended to the
/// caller's list.
#[derive(Debug, Clone, Copy, PartialEq, Eq, Structural)]
pub enum FluentError {
    /// A variable referenced by a pattern is absent from the arguments.
    UnknownVariable,
    /// A message reference names an id absent from the bundle.
    UnknownMessage,
    /// A term reference names an id absent from the bundle.
    UnknownTerm,
    /// A message or term reference asks for an attribute the entry lacks.
    UnknownAttribute,
    /// A function reference names a function that was never registered.
    UnknownFunction,
    /// A message or term re-entered while it was already being resolved.
    CyclicReference,
    /// The reference recursion depth cap was exceeded.
    TooManyPlaceables,
    /// A select expression has no variant marked default (malformed input);
    /// the first variant was used instead.
    MissingDefaultVariant,
    /// A resource entry overrode an entry with the same id added earlier.
    DuplicateEntryId,
    /// A function was registered under a name already taken.
    DuplicateFunctionName,
    /// A locale-data formatter could not be constructed for the requested
    /// locale and options; the value was rendered as empty text.
    FormatterConstructionFailure,
}

} // verus!
