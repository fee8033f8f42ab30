//! The two formats of plugin definition files: which one a file name hints
//! at, what the decoding attempts add up to, and which one an export
//! writes.

use vstd::prelude::*;
use vstd::string::StringExecFns;
use crate::plugin::{fault_message, field_fault, is_valid, Plugin, PluginError};
use crate::run::wanted_text;
use crate::text::{chars_of, same_text};

verus! {

/// A format of plugin definition files.
#[derive(Debug, Clone, Copy, PartialEq, Eq, Structural)]
pub enum Format {
    Yaml,
    Toml,
}

impl Format {
    /// The other format.
    pub fn other(self) -> (r: Format)
        ensures
            r != self,
    {
        match self {
            Format::Yaml => Format::Toml,
            Format::Toml => Format::Yaml,
        }
    }

    /// The name of the format, as it is given on the command line.
    pub fn name(self) -> (r: &'static str)
        ensures
            r@ == format_name(self),
    {
        match self {
            Format::Yaml => "yaml",
            Format::Toml => "toml",
        }
    }
}

/// The name of a format.
pub open spec fn format_name(f: Format) -> Seq<char> {
    match f {
        Format::Yaml => "yaml"@,
        Format::Toml => "toml"@,
    }
}

/// The code point of `c`, with the capital letters A to Z taken as their
/// small letters.
pub open spec fn folded(c: char) -> int {
    let u = c as u32;
    if 0x41 <= u <= 0x5A {
        u + 0x20
    } else {
        u as int
    }
}

/// Two texts are the same but for the case of the letters A to Z.
pub open spec fn same_folded(a: Seq<char>, b: Seq<char>) -> bool {
    a.len() == b.len() && forall|i: int| 0 <= i < a.len() ==> folded(a[i]) == folded(b[i])
}

/// Whether two texts are the same but for the case of the letters A to Z.
pub fn matches_folded(a: &str, b: &str) -> (r: bool)
    ensures
        r == same_folded(a@, b@),
{
    let x = chars_of(a);
    let y = chars_of(b);
    if x.len() != y.len() {
        return false;
    }
    let mut i: usize = 0;
    while i < x.len()
        invariant
            x@ == a@,
            y@ == b@,
            x.len() == y.len(),
            i <= x.len(),
            forall|k: int| 0 <= k < i ==> folded(x@[k]) == folded(y@[k]),
        decreases x.len() - i,
    {
        let p: u32 = x[i] as u32;
        let q: u32 = y[i] as u32;
        let p: u32 = if 0x41 <= p && p <= 0x5A {
            p + 0x20
        } else {
            p
        };
        let q: u32 = if 0x41 <= q && q <= 0x5A {
            q + 0x20
        } else {
            q
        };
        if p != q {
            return false;
        }
        i += 1;
    }
    true
}

/// The format that a file extension hints at: `toml` for the one,
/// `yaml` and `yml` for the other, whatever the case of the letters.
pub open spec fn hinted(extension: Option<Seq<char>>) -> Option<Format> {
    match extension {
        None => None,
        Some(x) => if same_folded(x, "toml"@) {
            Some(Format::Toml)
        } else if same_folded(x, "yaml"@) || same_folded(x, "yml"@) {
            Some(Format::Yaml)
        } else {
            None
        },
    }
}

/// The format that the extension of a file name hints at, if any.
pub fn format_for_extension(extension: Option<&str>) -> (r: Option<Format>)
    ensures
        r == hinted(wanted_text(extension)),
{
    match extension {
        None => None,
        Some(x) => {
            if matches_folded(x, "toml") {
                Some(Format::Toml)
            } else if matches_folded(x, "yaml") || matches_folded(x, "yml") {
                Some(Format::Yaml)
            } else {
                None
            }
        },
    }
}

/// Why the text of a plugin definition gave no plugin.
#[derive(Debug)]
pub enum ParseError {
    /// The text is not valid in the one format that was tried.
    Malformed { format: Format, detail: String },
    /// The text is valid in neither format; the errors of both decoders.
    Unreadable { yaml: String, toml: String },
    /// The text was decoded and a required field is empty.
    Invalid(PluginError),
}

/// The text of a parse error.
pub open spec fn parse_message(e: ParseError) -> Seq<char> {
    match e {
        ParseError::Malformed { format, detail } => match format {
            Format::Yaml => "Failed to parse plugin YAML: "@ + detail@,
            Format::Toml => "Failed to parse plugin TOML: "@ + detail@,
        },
        ParseError::Unreadable { yaml, toml } =>
            "无法解析插件文件 - 请确保文件是有效的 YAML 或 TOML 格式\n  YAML 错误: "@
            + yaml@ + "\n  TOML 错误: "@ + toml@
            + "\n建议使用 .yaml、.yml 或 .toml 文件扩展名"@,
        ParseError::Invalid(fault) => fault_message(fault),
    }
}

impl ParseError {
    /// The message shown for this error. An unreadable text lists what both
    /// decoders said and names the extensions that are understood.
    pub fn message(&self) -> (r: String)
        ensures
            r@ == parse_message(*self),
    {
        match self {
            ParseError::Malformed { format, detail } => {
                let mut out = match format {
                    Format::Yaml => String::from_str("Failed to parse plugin YAML: "),
                    Format::Toml => String::from_str("Failed to parse plugin TOML: "),
                };
                out.append(detail.as_str());
                out
            },
            ParseError::Unreadable { yaml, toml } => {
                let mut out = String::from_str(
                    "无法解析插件文件 - 请确保文件是有效的 YAML 或 TOML 格式\n  YAML 错误: ",
                );
                out.append(yaml.as_str());
                out.append("\n  TOML 错误: ");
                out.append(toml.as_str());
                out.append("\n建议使用 .yaml、.yml 或 .toml 文件扩展名");
                out
            },
            ParseError::Invalid(fault) => fault.message(),
        }
    }
}

/// A plugin that was read from a definition file.
#[derive(Debug)]
pub struct Parsed {
    /// The plugin.
    pub plugin: Plugin,
    /// The format in which the text was decoded.
    pub format: Format,
    /// The text was decoded in the other format than the file name hints
    /// at: the plugin is usable, and the file should be renamed.
    pub used_fallback: bool,
}

/// `r` is what a decoded record amounts to: the record itself where its
/// required fields are filled, else the error for the first that is
/// empty.
pub open spec fn checked(plugin: Plugin, r: Result<Plugin, ParseError>) -> bool {
    match field_fault(plugin@) {
        None => r matches Ok(p) && p == plugin,
        Some(fault) => r matches Err(ParseError::Invalid(e)) && e == fault,
    }
}

/// `r` is what one decoding attempt amounts to.
pub open spec fn decoded_as(
    format: Format,
    decoded: Result<Plugin, String>,
    r: Result<Plugin, ParseError>,
) -> bool {
    match decoded {
        Ok(plugin) => checked(plugin, r),
        Err(detail) => r matches Err(ParseError::Malformed { format: f, detail: d }) && f == format
            && d == detail,
    }
}

/// The format that is tried first: the one that the file name hints at,
/// and YAML where it hints at none.
pub open spec fn first_format(hint: Option<Format>) -> Format {
    match hint {
        Some(f) => f,
        None => Format::Yaml,
    }
}

/// What the decoder of `format` gave.
pub open spec fn attempt(
    format: Format,
    yaml: Result<Plugin, String>,
    toml: Result<Plugin, String>,
) -> Result<Plugin, String> {
    match format {
        Format::Yaml => yaml,
        Format::Toml => toml,
    }
}

/// `r` is what the two decoding attempts add up to. The format that the
/// hint names is taken first, the other only where the first failed. A
/// record that was decoded is then checked for its required fields. Where
/// the record comes from the other format than the hint names, the result
/// says so. Where neither attempt gave a record, the error holds what both
/// decoders said.
pub open spec fn parses_as(
    hint: Option<Format>,
    yaml: Result<Plugin, String>,
    toml: Result<Plugin, String>,
    r: Result<Parsed, ParseError>,
) -> bool {
    let first = first_format(hint);
    let second = if first == Format::Yaml {
        Format::Toml
    } else {
        Format::Yaml
    };
    match attempt(first, yaml, toml) {
        Ok(plugin) => match field_fault(plugin@) {
            None => r matches Ok(parsed) && parsed.plugin == plugin && parsed.format == first
                && !parsed.used_fallback,
            Some(fault) => r matches Err(ParseError::Invalid(e)) && e == fault,
        },
        Err(_) => match attempt(second, yaml, toml) {
            Ok(plugin) => match field_fault(plugin@) {
                None => r matches Ok(parsed) && parsed.plugin == plugin && parsed.format == second
                    && parsed.used_fallback == (hint is Some),
                Some(fault) => r matches Err(ParseError::Invalid(e)) && e == fault,
            },
            Err(_) => r matches Err(ParseError::Unreadable { yaml: y, toml: t }) && yaml
                == Err::<Plugin, String>(y) && toml == Err::<Plugin, String>(t),
        },
    }
}

/// A valid record that the first decoder gave comes out of parsing as it
/// went in, in the format that was tried first and without a fallback,
/// whatever the other decoder made of the text.
pub proof fn law_valid_record_is_kept(
    hint: Option<Format>,
    yaml: Result<Plugin, String>,
    toml: Result<Plugin, String>,
    plugin: Plugin,
    r: Result<Parsed, ParseError>,
)
    requires
        is_valid(plugin@),
        attempt(first_format(hint), yaml, toml) == Ok::<Plugin, String>(plugin),
        parses_as(hint, yaml, toml, r),
    ensures
        r matches Ok(parsed) && parsed.plugin == plugin && parsed.format == first_format(hint)
            && !parsed.used_fallback,
{
}

impl Plugin {
    /// The plugin that one decoding attempt gives: a decoding error stays
    /// an error of that format, and a decoded record must have its required
    /// fields filled.
    pub fn from_decoded(format: Format, decoded: Result<Plugin, String>) -> (r: Result<
        Plugin,
        ParseError,
    >)
        ensures
            decoded_as(format, decoded, r),
    {
        match decoded {
            Ok(plugin) => match plugin.check_fields() {
                Ok(_) => Ok(plugin),
                Err(fault) => Err(ParseError::Invalid(fault)),
            },
            Err(detail) => Err(ParseError::Malformed { format, detail }),
        }
    }
}

/// Reads a plugin from what the two decoders made of the text of a
/// definition file; `hint` is the format that the file name hints at.
pub fn parse(
    hint: Option<Format>,
    yaml: Result<Plugin, String>,
    toml: Result<Plugin, String>,
) -> (r: Result<Parsed, ParseError>)
    ensures
        parses_as(hint, yaml, toml, r),
{
    let first = match hint {
        Some(f) => f,
        None => Format::Yaml,
    };
    let (primary, fallback) = match first {
        Format::Yaml => (yaml, toml),
        Format::Toml => (toml, yaml),
    };
    match primary {
        Ok(plugin) => match plugin.check_fields() {
            Ok(_) => Ok(Parsed { plugin, format: first, used_fallback: false }),
            Err(fault) => Err(ParseError::Invalid(fault)),
        },
        Err(first_detail) => match fallback {
            Ok(plugin) => match plugin.check_fields() {
                Ok(_) => Ok(
                    Parsed { plugin, format: first.other(), used_fallback: hint.is_some() },
                ),
                Err(fault) => Err(ParseError::Invalid(fault)),
            },
            Err(second_detail) => match first {
                Format::Yaml => Err(
                    ParseError::Unreadable { yaml: first_detail, toml: second_detail },
                ),
                Format::Toml => Err(
                    ParseError::Unreadable { yaml: second_detail, toml: first_detail },
                ),
            },
        },
    }
}

/// The warning for a text that was decoded in the other format than its
/// file name hints at.
pub open spec fn fallback_warning_text(hint: Format) -> Seq<char> {
    match hint {
        Format::Toml =>
            "警告: 文件扩展名为 .toml，但内容看起来是 YAML 格式\n已成功解析为 YAML，但建议将文件重命名为 .yaml 或 .yml 扩展名"@,
        Format::Yaml =>
            "警告: 文件扩展名为 .yaml/.yml，但内容看起来是 TOML 格式\n已成功解析为 TOML，但建议将文件重命名为 .toml 扩展名"@,
    }
}

/// The warning to show where a file of the hinted format `hint` was
/// decoded in the other format.
pub fn fallback_warning(hint: Format) -> (r: String)
    ensures
        r@ == fallback_warning_text(hint),
{
    match hint {
        Format::Toml => String::from_str(
            "警告: 文件扩展名为 .toml，但内容看起来是 YAML 格式\n已成功解析为 YAML，但建议将文件重命名为 .yaml 或 .yml 扩展名",
        ),
        Format::Yaml => String::from_str(
            "警告: 文件扩展名为 .yaml/.yml，但内容看起来是 TOML 格式\n已成功解析为 TOML，但建议将文件重命名为 .toml 扩展名",
        ),
    }
}

/// The format of an export: the one that was asked for by name, which
/// must be `yaml` or `toml`; else the one that the extension of the
/// destination hints at; else YAML.
pub open spec fn export_choice(
    requested: Option<Seq<char>>,
    extension: Option<Seq<char>>,
) -> Option<Format> {
    match requested {
        Some(name) => if name == "toml"@ {
            Some(Format::Toml)
        } else if name == "yaml"@ {
            Some(Format::Yaml)
        } else {
            None
        },
        None => match hinted(extension) {
            Some(f) => Some(f),
            None => Some(Format::Yaml),
        },
    }
}

/// A format name that is not understood.
#[derive(Debug)]
pub struct UnsupportedFormat(pub String);

impl UnsupportedFormat {
    /// The message shown for this error.
    pub fn message(&self) -> (r: String)
        ensures
            r@ == "Unsupported format: "@ + self.0@,
    {
        let mut out = String::from_str("Unsupported format: ");
        out.append(self.0.as_str());
        out
    }
}

/// Picks the format of an export from the format that was asked for and
/// the extension of the destination file.
pub fn export_format(requested: Option<&str>, extension: Option<&str>) -> (r: Result<
    Format,
    UnsupportedFormat,
>)
    ensures
        match export_choice(wanted_text(requested), wanted_text(extension)) {
            Some(f) => r matches Ok(g) && g == f,
            None => r matches Err(e) && Some(e.0@) == wanted_text(requested),
        },
{
    match requested {
        Some(name) => {
            if same_text(name, "toml") {
                Ok(Format::Toml)
            } else if same_text(name, "yaml") {
                Ok(Format::Yaml)
            } else {
                Err(UnsupportedFormat(String::from_str(name)))
            }
        },
        None => match format_for_extension(extension) {
            Some(f) => Ok(f),
            None => Ok(Format::Yaml),
        },
    }
}

} // verus!
