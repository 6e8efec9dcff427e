//! The bar's rules for the values a payload carries, checked through `busylib`.
//!
//! `busylib` validates each wire value when it is constructed. The checks here
//! call those constructors and report what they decided; the spec functions
//! state the rules `busylib` applies, so contracts elsewhere can speak of them.

use vstd::prelude::*;

use crate::strings::decimal;

verus! {

/// An ASCII letter or digit.
pub open spec fn is_ascii_alnum(c: char) -> bool {
    ('a' <= c && c <= 'z') || ('A' <= c && c <= 'Z') || ('0' <= c && c <= '9')
}

/// A character allowed in names: `[a-zA-Z0-9._-]`.
pub open spec fn is_name_char(c: char) -> bool {
    is_ascii_alnum(c) || c == '.' || c == '_' || c == '-'
}

/// One or more of `[a-zA-Z0-9._-]`: application names, element ids, asset names.
pub open spec fn name_ok(s: Seq<char>) -> bool {
    s.len() > 0 && forall|i: int| 0 <= i < s.len() ==> #[trigger] is_name_char(s[i])
}

/// One or more of `[a-zA-Z0-9._/-]`.
pub open spec fn asset_path_ok(s: Seq<char>) -> bool {
    s.len() > 0 && forall|i: int| 0 <= i < s.len() ==> is_name_char(#[trigger] s[i]) || s[i] == '/'
}

/// A character allowed after `shared/` in a stock path: `[a-z0-9_.]`.
pub open spec fn is_stock_char(c: char) -> bool {
    ('a' <= c && c <= 'z') || ('0' <= c && c <= '9') || c == '_' || c == '.'
}

/// `shared/` followed by one or more of `[a-z0-9_.]`.
pub open spec fn stock_path_ok(s: Seq<char>) -> bool {
    s.len() > 7 && s.subrange(0, 7) == "shared/"@ && forall|i: int|
        7 <= i < s.len() ==> #[trigger] is_stock_char(s[i])
}

/// A printable ASCII character, `0x20..=0x7e`.
pub open spec fn is_printable(c: char) -> bool {
    ' ' <= c && c <= '~'
}

/// One or more printable ASCII characters: the text a font can draw.
pub open spec fn printable_ok(s: Seq<char>) -> bool {
    s.len() > 0 && forall|i: int| 0 <= i < s.len() ==> #[trigger] is_printable(s[i])
}

/// `busylib`'s rejection text: ``invalid {label} `{value}`: expected {expectation}``.
pub open spec fn invalid_value(label: Seq<char>, value: Seq<char>, expectation: Seq<char>) -> Seq<char> {
    "invalid "@ + label + " `"@ + value + "`: expected "@ + expectation
}

pub open spec fn name_expectation() -> Seq<char> {
    "one or more of [a-zA-Z0-9._-]"@
}

/// Why an application name is refused.
pub open spec fn app_name_error(s: Seq<char>) -> Seq<char> {
    invalid_value("application name"@, s, name_expectation())
}

/// Why an element id is refused.
pub open spec fn element_id_error(s: Seq<char>) -> Seq<char> {
    invalid_value("element id"@, s, name_expectation())
}

/// Why an asset file name is refused.
pub open spec fn asset_name_error(s: Seq<char>) -> Seq<char> {
    invalid_value("asset file name"@, s, name_expectation())
}

/// Why display text is refused.
pub open spec fn text_error(s: Seq<char>) -> Seq<char> {
    invalid_value("display text"@, s, "one or more printable ASCII characters"@)
}

/// Why an asset path is refused.
pub open spec fn asset_path_error(s: Seq<char>) -> Seq<char> {
    invalid_value("asset path"@, s, "one or more of [a-zA-Z0-9._/-]"@)
}

/// Why a stock path is refused.
pub open spec fn stock_path_error(s: Seq<char>) -> Seq<char> {
    invalid_value("stock asset path"@, s, "`shared/` followed by one or more of [a-z0-9_.]"@)
}

/// Why a priority is refused.
pub open spec fn priority_error(p: u8) -> Seq<char> {
    invalid_value("draw priority"@, decimal(p as nat), "a value between 1 and 100"@)
}

/// Why an opacity is refused.
pub open spec fn opacity_error(p: u8) -> Seq<char> {
    invalid_value("opacity"@, decimal(p as nat), "a percentage between 0 and 100"@)
}

/// `busylib::types::app_name::AppName::new`: accepts `name_ok` values and
/// otherwise reports `app_name_error`.
#[verifier::external_body]
pub(crate) fn check_app_name(s: &str) -> (r: Result<(), String>)
    ensures
        r is Ok <==> name_ok(s@),
        r matches Err(e) ==> e@ == app_name_error(s@),
{
    busylib::types::app_name::AppName::new(s).map(|_| ()).map_err(|e| e.to_string())
}

/// `busylib::types::element_id::ElementId::new`: accepts `name_ok` values and
/// otherwise reports `element_id_error`.
#[verifier::external_body]
pub(crate) fn check_element_id(s: &str) -> (r: Result<(), String>)
    ensures
        r is Ok <==> name_ok(s@),
        r matches Err(e) ==> e@ == element_id_error(s@),
{
    busylib::types::element_id::ElementId::new(s).map(|_| ()).map_err(|e| e.to_string())
}

/// `busylib::types::asset_name::AssetName::new`: accepts `name_ok` values and
/// otherwise reports `asset_name_error`.
#[verifier::external_body]
pub(crate) fn check_asset_name(s: &str) -> (r: Result<(), String>)
    ensures
        r is Ok <==> name_ok(s@),
        r matches Err(e) ==> e@ == asset_name_error(s@),
{
    busylib::types::asset_name::AssetName::new(s).map(|_| ()).map_err(|e| e.to_string())
}

/// `busylib::types::text::Text::new`: accepts one or more printable ASCII
/// characters and otherwise reports `text_error`.
#[verifier::external_body]
pub(crate) fn check_text(s: &str) -> (r: Result<(), String>)
    ensures
        r is Ok <==> printable_ok(s@),
        r matches Err(e) ==> e@ == text_error(s@),
{
    busylib::types::text::Text::new(s).map(|_| ()).map_err(|e| e.to_string())
}

/// `busylib::types::asset_path::AssetPath::new`: accepts `asset_path_ok`
/// values and otherwise reports `asset_path_error`.
#[verifier::external_body]
pub(crate) fn check_asset_path(s: &str) -> (r: Result<(), String>)
    ensures
        r is Ok <==> asset_path_ok(s@),
        r matches Err(e) ==> e@ == asset_path_error(s@),
{
    busylib::types::asset_path::AssetPath::new(s).map(|_| ()).map_err(|e| e.to_string())
}

/// `busylib::types::stock_path::StockPath::new`: accepts `stock_path_ok`
/// values and otherwise reports `stock_path_error`.
#[verifier::external_body]
pub(crate) fn check_stock_path(s: &str) -> (r: Result<(), String>)
    ensures
        r is Ok <==> stock_path_ok(s@),
        r matches Err(e) ==> e@ == stock_path_error(s@),
{
    busylib::types::stock_path::StockPath::new(s).map(|_| ()).map_err(|e| e.to_string())
}

/// `busylib::types::priority::Priority::new`: accepts 1 to 100 and otherwise
/// reports `priority_error`.
#[verifier::external_body]
pub(crate) fn check_priority(p: u8) -> (r: Result<(), String>)
    ensures
        r is Ok <==> 1 <= p <= 100,
        r matches Err(e) ==> e@ == priority_error(p),
{
    busylib::types::priority::Priority::new(p).map(|_| ()).map_err(|e| e.to_string())
}

/// `busylib::types::opacity::Opacity::new`: accepts 0 to 100 and otherwise
/// reports `opacity_error`.
#[verifier::external_body]
pub(crate) fn check_opacity(p: u8) -> (r: Result<(), String>)
    ensures
        r is Ok <==> p <= 100,
        r matches Err(e) ==> e@ == opacity_error(p),
{
    busylib::types::opacity::Opacity::new(p).map(|_| ()).map_err(|e| e.to_string())
}

} // verus!
