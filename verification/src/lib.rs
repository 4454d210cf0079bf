//! A verified JSON scanning core: a chunked byte-scanner framework with
//! composable predicates, a zero-copy JSON tokenizer, and skip engines that
//! fast-forward past whole JSON values while tracking nesting depth and
//! string-escape state.

pub mod bytesiterator;
pub mod jsontokenizer;
pub mod jsontokenizer_parse;
pub mod jsontokenizer_props;
pub mod jsontokenizer_skip;
pub mod jsontokenizer_spec;
pub mod jsontokenizer_token;
pub mod jsontokenizerx;
pub mod jsonvalue;
pub mod simdsearch;
pub mod simdsearch_ops;
