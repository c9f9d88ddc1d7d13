//! The few places where the library itself asks the host system for a value:
//! each is a trusted wrapper around one outside function, and everything
//! computed from the answers is verified.

use vstd::prelude::*;

use crate::paths::FsPath;

verus! {

/// Relies on dirs::home_dir: the user's home directory, if the platform knows
/// one. The answer depends on the environment, so nothing is stated about it.
#[verifier::external_body]
pub(crate) fn home_dir() -> Option<FsPath> {
    let home = dirs::home_dir()?;
    let components: Vec<String> = home.iter().map(|c| c.to_string_lossy().into_owned()).collect();
    Some(FsPath::from_components(components))
}

/// Relies on dirs::config_dir: the user's configuration directory, if the
/// platform knows one. The answer depends on the environment, so nothing is
/// stated about it.
#[verifier::external_body]
pub(crate) fn config_dir() -> Option<FsPath> {
    let conf = dirs::config_dir()?;
    let components: Vec<String> = conf.iter().map(|c| c.to_string_lossy().into_owned()).collect();
    Some(FsPath::from_components(components))
}

/// Relies on uuid::Uuid::new_v4 and its hyphenated rendering: 36 characters,
/// collision-resistant. The value depends on the process's randomness, so only
/// its length is stated.
#[verifier::external_body]
pub(crate) fn fresh_suffix() -> (r: String)
    ensures
        r@.len() == 36,
{
    uuid::Uuid::new_v4().to_string()
}

/// Relies on chrono::Local::now and its rendering: the current local time.
/// Time-dependent, so nothing is stated about the value.
#[verifier::external_body]
pub(crate) fn local_now_string() -> String {
    chrono::Local::now().to_string()
}

/// The INI rendering of a list of sections, each a section name with its
/// properties in order: what `ini::Ini` writes for them with escaping turned
/// off, `=` between key and value, and `\n` line endings on every target. A
/// function of the sections alone, named rather than spelled out.
pub uninterp spec fn ini_text(sections: Seq<(Seq<char>, Seq<(Seq<char>, Seq<char>)>)>) -> Seq<
    char,
>;

/// Relies on ini::Ini (with_section, set, write_to_opt): renders the given
/// sections and properties, in order, as INI text, with escaping turned off,
/// `=` as the separator and `\n` line endings fixed explicitly, so the text
/// depends on the sections alone on every target. Writing into a byte buffer
/// cannot fail and the bytes are concatenated UTF-8 strings, so the rendering
/// is total.
#[verifier::external_body]
pub(crate) fn ini_render(sections: &Vec<(String, Vec<(String, String)>)>) -> (r: String)
    ensures
        r@ == ini_text(sections.deep_view()),
{
    let mut data = ini::Ini::new();
    for (section, props) in sections.iter() {
        let mut setter = data.with_section(Some(section.as_str()));
        for (key, value) in props.iter() {
            setter.set(key.as_str(), value.as_str());
        }
    }
    let option = ini::WriteOption {
        escape_policy: ini::EscapePolicy::Nothing,
        line_separator: ini::LineSeparator::CR,
        kv_separator: "=",
    };
    let mut buf: Vec<u8> = Vec::new();
    data.write_to_opt(&mut buf, option).ok();
    String::from_utf8_lossy(&buf).into_owned()
}

/// What one character becomes in escaped XML text: the five special
/// characters and the carriage return become their escape sequences, anything
/// else stays itself.
pub open spec fn xml_escape_char(c: char) -> Seq<char> {
    if c == '<' {
        seq!['&', 'l', 't', ';']
    } else if c == '>' {
        seq!['&', 'g', 't', ';']
    } else if c == '&' {
        seq!['&', 'a', 'm', 'p', ';']
    } else if c == '\'' {
        seq!['&', 'a', 'p', 'o', 's', ';']
    } else if c == '"' {
        seq!['&', 'q', 'u', 'o', 't', ';']
    } else if c == '\r' {
        seq!['&', '#', '1', '3', ';']
    } else {
        seq![c]
    }
}

/// A string escaped for XML, character by character.
pub open spec fn xml_escaped(s: Seq<char>) -> Seq<char>
    decreases s.len(),
{
    if s.len() == 0 {
        Seq::empty()
    } else {
        xml_escape_char(s[0]) + xml_escaped(s.drop_first())
    }
}

/// Relies on quick_xml::escape::escape: replaces `<`, `>`, `&`, `'`, `"` and
/// `\r` with their XML escape sequences, character by character, and leaves
/// every other character alone.
#[verifier::external_body]
pub(crate) fn xml_escape(s: &String) -> (r: String)
    ensures
        r@ == xml_escaped(s@),
{
    quick_xml::escape::escape(s.as_str()).into_owned()
}

} // verus!
