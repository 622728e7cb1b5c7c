//! A typed command-line argument binder.
//!
//! A caller declares a schema of expected positional values (scalar or
//! vector, each with a name) together with a registry of recognized
//! keyword-flag strings, and hands the raw token list to
//! [`CommandLineParser::parse`].  The binder walks the tokens, decides for
//! each one whether it is positional data, overflow, or a keyword
//! interrupt, coerces positional tokens into typed values, and returns
//! either a fully bound result or a structured error whose variant and
//! message are both fixed by contract for every input.

mod coerce;
mod floatlit;
mod laws;
mod numeric;
mod parser;
mod strutil;
mod types;
pub mod variables;

pub use coerce::coerce;
pub use coerce::first_bad_float;
pub use coerce::first_bad_int;
pub use coerce::first_bad_uint;
pub use coerce::scalar_parse_msg;
pub use coerce::vec_elem_msg;
pub use coerce::vec_frame_msg;
pub use coerce::vecstring_elems;
pub use coerce::vs_escape_msg;
pub use coerce::vs_open_msg;
pub use coerce::vs_sep_msg;
pub use coerce::vs_unterminated_msg;
pub use floatlit::is_float_literal;
pub use laws::lemma_bind_idempotent;
pub use laws::lemma_bound_floats_wellformed;
pub use laws::lemma_fixed_keyword_interrupt;
pub use laws::lemma_fixed_overflow_allowed;
pub use laws::lemma_fixed_overflow_rejected;
pub use laws::lemma_fixed_underflow;
pub use laws::lemma_float_coercion_exact;
pub use laws::lemma_integer_coercion_exact;
pub use laws::lemma_unsigned_coercion_exact;
pub use laws::vars_floats_wellformed;
pub use laws::value_floats_wellformed;
pub use numeric::parses_as_i128;
pub use numeric::parses_as_u128;
pub use numeric::signed_literal_val;
pub use numeric::unsigned_literal_val;
pub use parser::CommandLineParser;
pub use parser::expected_got_msg;
pub use parser::missing_input_msg;
pub use parser::no_invocation_msg;
pub use parser::unexpected_input_msg;
pub use parser::bind_fixed;
pub use parser::bind_none;
pub use parser::bind_repeated;
pub use parser::bind_result_matches;
pub use parser::bind_spec;
pub use types::ArgTypes;
pub use types::ArgsModel;
pub use types::ArgsSettings;
pub use types::BindModel;
pub use types::CLPErrorKind;
pub use types::CLPInput;
pub use types::CLPResult;
pub use types::CLPVar;
pub use types::ErrModel;
pub use types::ErrTag;
pub use types::entries_view;
pub use types::slot_desc;
pub use types::FloatLit;
pub use types::KwargSettings;
pub use types::KwargTypes;
pub use types::VarModel;
pub use variables::CLPExpectedType;
pub use variables::CLPOutputType;
pub use variables::CLPType;
