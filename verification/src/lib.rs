//! A localization runtime: given a parsed message catalog (messages and terms
//! holding patterns, placeables and selectors) and a set of runtime arguments,
//! it produces the final user-facing string, resolving cross-references,
//! plural/selector logic, and locale-aware number/date formatting. It never
//! fails fatally on malformed input or missing data: it degrades gracefully
//! and reports soft errors through diagnostics lists.

pub mod args;
pub mod ast;
pub mod bundle;
pub mod datetime;
pub mod errors;
pub mod fallback;
pub mod intl;
pub mod laws;
pub mod locale;
pub mod negotiate;
pub mod number;
pub mod resolver;
pub mod strutil;
pub mod value;

pub use args::FluentArgs;
pub use ast::CallArguments;
pub use ast::Expression;
pub use ast::FluentMessage;
pub use ast::FluentResource;
pub use ast::FluentTerm;
pub use ast::NamedArgument;
pub use ast::Pattern;
pub use ast::PatternElement;
pub use ast::ResourceEntry;
pub use ast::Variant;
pub use ast::VariantKey;
pub use bundle::FluentBundle;
pub use datetime::FluentDateStyle;
pub use datetime::FluentDateTime;
pub use datetime::FluentDateTimeOptions;
pub use datetime::FluentTimeStyle;
pub use datetime::FluentTimezoneStyle;
pub use datetime::IsoFormat;
pub use datetime::IsoMinutes;
pub use datetime::IsoSeconds;
pub use errors::FluentError;
pub use fallback::Localization;
pub use intl::DateTimeParts;
pub use intl::IntlLangMemoizer;
pub use locale::LocaleId;
pub use locale::MockLikelySubtags;
pub use negotiate::negotiate_languages;
pub use negotiate::NegotiationStrategy;
pub use number::FluentNumber;
pub use number::FluentNumberCurrencyDisplayStyle;
pub use number::FluentNumberGrouping;
pub use number::FluentNumberNotation;
pub use number::FluentNumberOptions;
pub use number::FluentNumberRoundingMode;
pub use number::FluentNumberStyle;
pub use resolver::NativeFunction;
pub use value::FluentValue;
