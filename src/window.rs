use vstd::prelude::*;

verus! {

/// The boolean stored under `key` at the top level of the JSON text `text`;
/// `None` when the text is not JSON, is not an object, lacks the key, or holds
/// something other than a boolean there.
pub uninterp spec fn json_bool_field(text: Seq<char>, key: Seq<char>) -> Option<bool>;

/// Relies on `serde_json::from_str` into a `serde_json::Value`, then
/// `Value::get` and `Value::as_bool`: the result depends on the two texts alone.
#[verifier::external_body]
fn read_json_bool(text: &str, key: &str) -> (r: Option<bool>)
    ensures
        r == json_bool_field(text@, key@),
{
    match serde_json::from_str::<serde_json::Value>(text) {
        Ok(v) => match v.get(key) {
            Some(field) => field.as_bool(),
            None => None,
        },
        Err(_) => None,
    }
}

/// Which title bar the main window gets.
#[derive(Debug, Clone, Copy, PartialEq, Eq, Structural)]
pub enum TitleBar {
    /// The application draws its own; native decorations are switched off.
    Custom,
    /// The system's decorations.
    Native,
    /// The configuration does not say; the window is left as it is.
    Unset,
}

/// The title bar that the window configuration text asks for, by its
/// `customTitleBar` flag.
pub fn title_bar_choice(window_config: &str) -> (r: TitleBar)
    ensures
        r == match json_bool_field(window_config@, "customTitleBar"@) {
            Some(true) => TitleBar::Custom,
            Some(false) => TitleBar::Native,
            None => TitleBar::Unset,
        },
{
    match read_json_bool(window_config, "customTitleBar") {
        Some(true) => TitleBar::Custom,
        Some(false) => TitleBar::Native,
        None => TitleBar::Unset,
    }
}

} // verus!
