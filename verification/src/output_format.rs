//! How a record is printed.

use vstd::prelude::*;
use crate::errors::{AppError, AppResult};
use crate::meta::{Meta, MetaView};
use crate::text::{decimal, push_decimal, text_eq};

verus! {

/// The ways to print a record.
#[derive(Clone, Copy, Debug, PartialEq, Eq)]
pub enum OutputFormat {
    /// A command for the image viewer chrysoberyl.
    Chrysoberyl,
    /// A JSON object on one line.
    Json,
    /// A JSON object laid out over several lines.
    PrettyJson,
    /// The path alone.
    Simple,
}

/// How a JSON format lays an object out.
#[derive(Clone, Copy, Debug, PartialEq, Eq)]
pub enum JsonLayout {
    Compact,
    Pretty,
}

/// The format that `name` names: each format has a long name and its first
/// letter as a short one.
pub open spec fn format_named(name: Seq<char>) -> Option<OutputFormat> {
    if name == "c"@ || name == "chrysoberyl"@ {
        Some(OutputFormat::Chrysoberyl)
    } else if name == "j"@ || name == "json"@ {
        Some(OutputFormat::Json)
    } else if name == "p"@ || name == "pretty-json"@ {
        Some(OutputFormat::PrettyJson)
    } else if name == "s"@ || name == "simple"@ {
        Some(OutputFormat::Simple)
    } else {
        None
    }
}

/// The characters that a shell takes as they are.
pub open spec fn is_plain(c: char) -> bool {
    ('a' <= c <= 'z') || ('A' <= c <= 'Z') || ('0' <= c <= '9') || c == '-' || c == '_' || c
        == '=' || c == '/' || c == ',' || c == '.' || c == '+'
}

/// `s` as it stands between apostrophes for a shell: each apostrophe and
/// each `!` leaves the quotes, is escaped with a backslash, and the quotes
/// open again.
pub open spec fn quoted_body(s: Seq<char>) -> Seq<char>
    decreases s.len(),
{
    if s.len() == 0 {
        Seq::empty()
    } else if s.last() == '\'' || s.last() == '!' {
        quoted_body(s.drop_last()) + seq!['\'', '\\', s.last(), '\'']
    } else {
        quoted_body(s.drop_last()).push(s.last())
    }
}

/// `s` as one word for a shell: as it is where it is not empty and holds
/// plain characters only, else between apostrophes.
pub open spec fn shell_escaped(s: Seq<char>) -> Seq<char> {
    if s.len() > 0 && forall|i: int| 0 <= i < s.len() ==> is_plain(#[trigger] s[i]) {
        s
    } else {
        seq!['\''] + quoted_body(s) + seq!['\'']
    }
}

/// The line that `format` prints for a record. `json` is the record as JSON
/// in the layout that the format asks for; the other formats do not read it.
pub open spec fn line_spec(format: OutputFormat, meta: MetaView, json: Seq<char>) -> Seq<char> {
    match format {
        OutputFormat::Chrysoberyl => "@push-image"@ + " --meta width="@ + decimal(
            meta.width as nat,
        ) + " --meta height="@ + decimal(meta.height as nat) + " --meta format="@ + meta.format
            + (match meta.dhash {
            Some(text) => " --meta dhash="@ + text,
            None => Seq::empty(),
        }) + " "@ + shell_escaped(meta.path) + "\n"@,
        OutputFormat::Json => json + "\n"@,
        OutputFormat::PrettyJson => json + "\n"@,
        OutputFormat::Simple => meta.path + "\n"@,
    }
}

/// `shell_escape::unix::escape`: the text as one word for a Unix shell. A
/// text of letters, digits and `-_=/,.+` stays as it is; any other, and the
/// empty one, is put between apostrophes, with `'` and `!` escaped outside
/// them.
#[verifier::external_body]
fn escape_word(s: &str) -> (escaped: String)
    ensures
        escaped@ == shell_escaped(s@),
{
    shell_escape::unix::escape(std::borrow::Cow::from(s)).into_owned()
}

impl OutputFormat {
    /// The format named `s`. A name of no format is refused with
    /// `InvalidOutputFormat`, which carries the name.
    pub fn from_str(s: &str) -> (result: AppResult<OutputFormat>)
        ensures
            match format_named(s@) {
                Some(format) => result == Ok::<OutputFormat, AppError>(format),
                None => result matches Err(AppError::InvalidOutputFormat(name)) && name@ == s@,
            },
    {
        if text_eq(s, "c") || text_eq(s, "chrysoberyl") {
            Ok(OutputFormat::Chrysoberyl)
        } else if text_eq(s, "j") || text_eq(s, "json") {
            Ok(OutputFormat::Json)
        } else if text_eq(s, "p") || text_eq(s, "pretty-json") {
            Ok(OutputFormat::PrettyJson)
        } else if text_eq(s, "s") || text_eq(s, "simple") {
            Ok(OutputFormat::Simple)
        } else {
            Err(AppError::InvalidOutputFormat(s.to_owned()))
        }
    }

    /// The layout of the JSON that the format prints, if it prints JSON.
    pub fn json_layout(&self) -> (layout: Option<JsonLayout>)
        ensures
            layout == (match self {
                OutputFormat::Json => Some(JsonLayout::Compact),
                OutputFormat::PrettyJson => Some(JsonLayout::Pretty),
                _ => None,
            }),
    {
        match self {
            OutputFormat::Json => Some(JsonLayout::Compact),
            OutputFormat::PrettyJson => Some(JsonLayout::Pretty),
            _ => None,
        }
    }

    /// Appends to `out` the line for `meta`. `json` is the record as JSON in
    /// the layout of [`OutputFormat::json_layout`]; a format that prints no
    /// JSON does not read it.
    pub fn write(&self, out: &mut String, meta: &Meta, json: &str)
        ensures
            final(out)@ == old(out)@ + line_spec(*self, meta@, json@),
    {
        match self {
            OutputFormat::Chrysoberyl => {
                out.append("@push-image");
                out.append(" --meta width=");
                push_decimal(out, meta.dimensions.width as u64);
                out.append(" --meta height=");
                push_decimal(out, meta.dimensions.height as u64);
                out.append(" --meta format=");
                out.append(meta.format);
                match &meta.dhash {
                    Some(hash) => {
                        out.append(" --meta dhash=");
                        out.append(hash.as_str());
                    },
                    None => {},
                }
                out.append(" ");
                let word = escape_word(meta.file.path.as_str());
                out.append(word.as_str());
                out.append("\n");
            },
            OutputFormat::Json => {
                out.append(json);
                out.append("\n");
            },
            OutputFormat::PrettyJson => {
                out.append(json);
                out.append("\n");
            },
            OutputFormat::Simple => {
                out.append(meta.file.path.as_str());
                out.append("\n");
            },
        }
        assert(out@ =~= old(out)@ + line_spec(*self, meta@, json@));
    }
}

} // verus!
