//! The messages that describe the library's errors.
use vstd::prelude::*;

use crate::enums::Error;
use crate::text::{owned, push_char};

verus! {

/// What `{:?}` gives for a path (`Path`'s `Debug`): the path quoted, with
/// characters escaped as `str::escape_debug` does.
pub uninterp spec fn std_path_debug(path: Seq<char>) -> Seq<char>;

/// What `{:?}` gives for a string (`str`'s `Debug`).
pub uninterp spec fn std_str_debug(s: Seq<char>) -> Seq<char>;

/// Formats a path with `{:?}`, as `std_path_debug` names it.
#[verifier::external_body]
fn path_debug(path: &str) -> (res: String)
    ensures
        res@ == std_path_debug(path@),
{
    format!("{:?}", std::path::Path::new(path))
}

/// Formats a string with `{:?}`, as `std_str_debug` names it.
#[verifier::external_body]
fn str_debug(s: &str) -> (res: String)
    ensures
        res@ == std_str_debug(s@),
{
    format!("{:?}", s)
}

/// The decimal digit of a number below ten.
pub open spec fn digit(d: nat) -> char {
    if d == 0 { '0' } else if d == 1 { '1' } else if d == 2 { '2' } else if d == 3 { '3' }
    else if d == 4 { '4' } else if d == 5 { '5' } else if d == 6 { '6' } else if d == 7 { '7' }
    else if d == 8 { '8' } else { '9' }
}

/// A number in decimal, without leading zeros.
pub open spec fn decimal(n: nat) -> Seq<char>
    decreases n,
{
    if n < 10 {
        seq![digit(n)]
    } else {
        decimal(n / 10).push(digit(n % 10))
    }
}

fn digit_char(d: u64) -> (res: char)
    requires
        d < 10,
    ensures
        res == digit(d as nat),
{
    if d == 0 { '0' } else if d == 1 { '1' } else if d == 2 { '2' } else if d == 3 { '3' }
    else if d == 4 { '4' } else if d == 5 { '5' } else if d == 6 { '6' } else if d == 7 { '7' }
    else if d == 8 { '8' } else { '9' }
}

/// A number in decimal, as `{}` formats it.
pub fn decimal_string(n: u64) -> (res: String)
    ensures
        res@ == decimal(n as nat),
    decreases n,
{
    if n < 10 {
        let mut s = String::new();
        push_char(&mut s, digit_char(n));
        s
    } else {
        let mut s = decimal_string(n / 10);
        push_char(&mut s, digit_char(n % 10));
        s
    }
}

/// The upper-case hexadecimal digit of a number below sixteen.
pub open spec fn hex_digit(d: nat) -> char {
    if d < 10 { digit(d) } else if d == 10 { 'A' } else if d == 11 { 'B' } else if d == 12 { 'C' }
    else if d == 13 { 'D' } else if d == 14 { 'E' } else { 'F' }
}

/// A byte as two upper-case hexadecimal digits.
pub open spec fn hex_byte(b: u8) -> Seq<char> {
    seq![hex_digit((b / 16) as nat), hex_digit((b % 16) as nat)]
}

/// The bytes as two-digit upper-case hexadecimal numbers separated by
/// `, `.
pub open spec fn hex_list(bytes: Seq<u8>) -> Seq<char>
    decreases bytes.len(),
{
    if bytes.len() == 0 {
        Seq::empty()
    } else if bytes.len() == 1 {
        hex_byte(bytes[0])
    } else {
        hex_list(bytes.drop_last()) + seq![',', ' '] + hex_byte(bytes.last())
    }
}

/// What `{:02X?}` gives for bytes: the two-digit upper-case hexadecimal
/// numbers in square brackets, separated by `, `.
pub open spec fn hex_bytes_text(bytes: Seq<u8>) -> Seq<char> {
    seq!['['] + hex_list(bytes) + seq![']']
}

fn hex_digit_char(d: u8) -> (res: char)
    requires
        d < 16,
    ensures
        res == hex_digit(d as nat),
{
    if d < 10 { digit_char(d as u64) } else if d == 10 { 'A' } else if d == 11 { 'B' } else if d == 12 { 'C' }
    else if d == 13 { 'D' } else if d == 14 { 'E' } else { 'F' }
}

/// Formats bytes as `{:02X?}` does (see `hex_bytes_text`).
pub fn hex_bytes_debug(bytes: &[u8]) -> (res: String)
    ensures
        res@ == hex_bytes_text(bytes@),
{
    let mut list = String::new();
    let mut i: usize = 0;
    while i < bytes.len()
        invariant
            i <= bytes.len(),
            list@ == hex_list(bytes@.take(i as int)),
        decreases bytes.len() - i,
    {
        let ghost before = list@;
        if i > 0 {
            push_char(&mut list, ',');
            push_char(&mut list, ' ');
        }
        let b = bytes[i];
        push_char(&mut list, hex_digit_char(b / 16));
        push_char(&mut list, hex_digit_char(b % 16));
        proof {
            let t = bytes@.take(i + 1);
            assert(t.drop_last() =~= bytes@.take(i as int));
            assert(t.last() == b);
            if i == 0 {
                assert(t.len() == 1 && t[0] == b);
                assert(list@ =~= hex_byte(b));
            } else {
                assert(list@ =~= before + seq![',', ' '] + hex_byte(b));
            }
        }
        i = i + 1;
    }
    assert(bytes@.take(bytes.len() as int) =~= bytes@);
    let mut s = String::new();
    push_char(&mut s, '[');
    s.append(list.as_str());
    push_char(&mut s, ']');
    assert(s@ =~= hex_bytes_text(bytes@));
    s
}

/// A signed number in decimal, as `{}` formats it.
pub open spec fn signed_decimal(n: int) -> Seq<char> {
    if n < 0 { seq!['-'] + decimal((-n) as nat) } else { decimal(n as nat) }
}

fn signed_decimal_string(n: i32) -> (res: String)
    ensures
        res@ == signed_decimal(n as int),
{
    if n < 0 {
        let m = (-(n as i64)) as u64;
        let digits = decimal_string(m);
        let mut s = owned("-");
        proof {
            reveal_strlit("-");
            assert("-"@ =~= seq!['-']);
        }
        s.append(digits.as_str());
        s
    } else {
        decimal_string(n as u64)
    }
}

/// The message that describes an error.
pub open spec fn spec_message(e: Error) -> Seq<char> {
    match e {
        Error::InvalidPath(path) => "The path "@ + std_path_debug(path@) + " is invalid"@,
        Error::IoError(path, error) => "I/O error involving the path "@ + std_path_debug(path@) + ": "@ + error@,
        Error::NoFilename(path) => "The plugin path "@ + std_path_debug(path@) + " has no filename part"@,
        Error::DecodeError(bytes) => "String could not be decoded from Windows-1252, bytes are "@ + hex_bytes_text(bytes@),
        Error::EncodeError(s) => "The string \""@ + s@ + "\" could not be encoded to Windows-1252"@,
        Error::PluginParsingError(path, err) => "An error was encountered while parsing the plugin at "@
            + std_path_debug(path@) + ": "@ + err@,
        Error::PluginNotFound(name) => "The plugin \""@ + name@ + "\" is not in the load order"@,
        Error::TooManyActivePlugins { light_count, medium_count, full_count } =>
            "Maximum number of active plugins exceeded: there are "@ + decimal(full_count as nat)
            + " active full plugins, "@ + decimal(medium_count as nat) + " active medium plugins and "@
            + decimal(light_count as nat) + " active light plugins"@,
        Error::DuplicatePlugin(name) => "The given plugin list contains more than one instance of \""@ + name@ + "\""@,
        Error::NonMasterBeforeMaster { master, non_master } => "Attempted to load the non-master plugin \""@
            + non_master@ + "\" before the master plugin \""@ + master@ + "\""@,
        Error::InvalidEarlyLoadingPluginPosition { name, pos, expected_pos } =>
            "Attempted to load the early-loading plugin \""@ + name@ + "\" at position "@ + decimal(pos as nat)
            + ", its expected position is "@ + decimal(expected_pos as nat),
        Error::ImplicitlyActivePlugin(name) => "The implicitly active plugin \""@ + name@ + "\" cannot be deactivated"@,
        Error::NoLocalAppData => "The game's local app data folder could not be detected"@,
        Error::NoDocumentsPath => "The user's Documents path could not be detected"@,
        Error::NoUserConfigPath => "The user's config path could not be detected"@,
        Error::NoUserDataPath => "The user's data path could not be detected"@,
        Error::NoProgramFilesPath => "The Program Files path could not be detected"@,
        Error::UnrepresentedHoist { plugin, master } => "The plugin \""@ + plugin@ + "\" is a master of \""@
            + master@ + "\", which will hoist it"@,
        Error::InstalledPlugin(plugin) => "The plugin \""@ + plugin@ + "\" is installed, so cannot be removed from the load order"@,
        Error::IniParsingError { path, line, column, message } => "Failed to parse ini file at "@
            + std_path_debug(path@) + ", error at line "@ + decimal(line as nat) + ", column "@
            + decimal(column as nat) + ": "@ + message@,
        Error::VdfParsingError(path, message) => "Failed to parse VDF file at "@ + std_path_debug(path@) + ": "@ + message@,
        Error::SystemError(code, message) => "Error returned by the operating system, code "@
            + signed_decimal(code as int) + ": "@ + std_str_debug(message@),
        Error::InvalidBlueprintPluginPosition { name, pos, expected_pos } =>
            "Attempted to load the blueprint plugin \""@ + name@ + "\" at position "@ + decimal(pos as nat)
            + ", its expected position is "@ + decimal(expected_pos as nat),
    }
}

impl Error {
    /// The message that describes the error.
    pub fn message(&self) -> (res: String)
        ensures
            res@ == spec_message(*self),
    {
        let res = match self {
            Error::InvalidPath(path) => {
                let mut s = owned("The path ");
                s.append(path_debug(path.as_str()).as_str());
                s.append(" is invalid");
                s
            },
            Error::IoError(path, error) => {
                let mut s = owned("I/O error involving the path ");
                s.append(path_debug(path.as_str()).as_str());
                s.append(": ");
                s.append(error.as_str());
                s
            },
            Error::NoFilename(path) => {
                let mut s = owned("The plugin path ");
                s.append(path_debug(path.as_str()).as_str());
                s.append(" has no filename part");
                s
            },
            Error::DecodeError(bytes) => {
                let mut s = owned("String could not be decoded from Windows-1252, bytes are ");
                s.append(hex_bytes_debug(bytes.as_slice()).as_str());
                s
            },
            Error::EncodeError(text) => {
                let mut s = owned("The string \"");
                s.append(text.as_str());
                s.append("\" could not be encoded to Windows-1252");
                s
            },
            Error::PluginParsingError(path, err) => {
                let mut s = owned("An error was encountered while parsing the plugin at ");
                s.append(path_debug(path.as_str()).as_str());
                s.append(": ");
                s.append(err.as_str());
                s
            },
            Error::PluginNotFound(name) => {
                let mut s = owned("The plugin \"");
                s.append(name.as_str());
                s.append("\" is not in the load order");
                s
            },
            Error::TooManyActivePlugins { light_count, medium_count, full_count } => {
                let mut s = owned("Maximum number of active plugins exceeded: there are ");
                s.append(decimal_string(*full_count as u64).as_str());
                s.append(" active full plugins, ");
                s.append(decimal_string(*medium_count as u64).as_str());
                s.append(" active medium plugins and ");
                s.append(decimal_string(*light_count as u64).as_str());
                s.append(" active light plugins");
                s
            },
            Error::DuplicatePlugin(name) => {
                let mut s = owned("The given plugin list contains more than one instance of \"");
                s.append(name.as_str());
                s.append("\"");
                s
            },
            Error::NonMasterBeforeMaster { master, non_master } => {
                let mut s = owned("Attempted to load the non-master plugin \"");
                s.append(non_master.as_str());
                s.append("\" before the master plugin \"");
                s.append(master.as_str());
                s.append("\"");
                s
            },
            Error::InvalidEarlyLoadingPluginPosition { name, pos, expected_pos } => {
                let mut s = owned("Attempted to load the early-loading plugin \"");
                s.append(name.as_str());
                s.append("\" at position ");
                s.append(decimal_string(*pos as u64).as_str());
                s.append(", its expected position is ");
                s.append(decimal_string(*expected_pos as u64).as_str());
                s
            },
            Error::ImplicitlyActivePlugin(name) => {
                let mut s = owned("The implicitly active plugin \"");
                s.append(name.as_str());
                s.append("\" cannot be deactivated");
                s
            },
            Error::NoLocalAppData => owned("The game's local app data folder could not be detected"),
            Error::NoDocumentsPath => owned("The user's Documents path could not be detected"),
            Error::NoUserConfigPath => owned("The user's config path could not be detected"),
            Error::NoUserDataPath => owned("The user's data path could not be detected"),
            Error::NoProgramFilesPath => owned("The Program Files path could not be detected"),
            Error::UnrepresentedHoist { plugin, master } => {
                let mut s = owned("The plugin \"");
                s.append(plugin.as_str());
                s.append("\" is a master of \"");
                s.append(master.as_str());
                s.append("\", which will hoist it");
                s
            },
            Error::InstalledPlugin(plugin) => {
                let mut s = owned("The plugin \"");
                s.append(plugin.as_str());
                s.append("\" is installed, so cannot be removed from the load order");
                s
            },
            Error::IniParsingError { path, line, column, message } => {
                let mut s = owned("Failed to parse ini file at ");
                s.append(path_debug(path.as_str()).as_str());
                s.append(", error at line ");
                s.append(decimal_string(*line as u64).as_str());
                s.append(", column ");
                s.append(decimal_string(*column as u64).as_str());
                s.append(": ");
                s.append(message.as_str());
                s
            },
            Error::VdfParsingError(path, message) => {
                let mut s = owned("Failed to parse VDF file at ");
                s.append(path_debug(path.as_str()).as_str());
                s.append(": ");
                s.append(message.as_str());
                s
            },
            Error::SystemError(code, message) => {
                let mut s = owned("Error returned by the operating system, code ");
                s.append(signed_decimal_string(*code).as_str());
                s.append(": ");
                s.append(str_debug(message.as_str()).as_str());
                s
            },
            Error::InvalidBlueprintPluginPosition { name, pos, expected_pos } => {
                let mut s = owned("Attempted to load the blueprint plugin \"");
                s.append(name.as_str());
                s.append("\" at position ");
                s.append(decimal_string(*pos as u64).as_str());
                s.append(", its expected position is ");
                s.append(decimal_string(*expected_pos as u64).as_str());
                s
            },
        };
        res
    }
}

} // verus!
