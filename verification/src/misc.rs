//! Checks and names around backups: S3 settings, client program versions, archive and
//! object names, random strings.
use vstd::prelude::*;

use crate::structs::{is_other_error, PGCliError, PGTools, S3Credentials};
use crate::text::{
    decimal, is_alphanumeric, is_ascii_alphanumeric, is_digit, is_whitespace, parse_unsigned,
    ends_with, parse_unsigned_chars, push_char, str_ends_with, str_eq, string_of, to_chars,
    u64_to_decimal,
    alphanumeric, white_space,
};
use rand::Rng;

verus! {

/// The text of an optional setting, empty when it is missing.
pub open spec fn opt_text(o: Option<String>) -> Seq<char> {
    match o {
        Some(s) => s@,
        None => Seq::<char>::empty(),
    }
}

/// Characters allowed in an S3 prefix: Unicode alphanumerics, `_`, `/` and `-`.
pub open spec fn s3_prefix_char_ok(c: char) -> bool {
    alphanumeric(c) || c == '_' || c == '/' || c == '-'
}

/// What is wrong with S3 settings, checked in this order; `None` when they are usable.
pub open spec fn s3_credentials_problem(c: S3Credentials) -> Option<Seq<char>> {
    let prefix = opt_text(c.s3_prefix);
    if opt_text(c.s3_endpoint).len() == 0 {
        Some("S3 endpoint is required"@)
    } else if opt_text(c.s3_access_key).len() == 0 {
        Some("S3 access key is required"@)
    } else if opt_text(c.s3_secret_key).len() == 0 {
        Some("S3 secret key is required"@)
    } else if opt_text(c.s3_bucket).len() == 0 {
        Some("S3 bucket is required"@)
    } else if opt_text(c.s3_region).len() == 0 {
        Some("S3 region is required"@)
    } else if prefix.len() == 0 || !(forall|i: int|
        0 <= i < prefix.len() ==> s3_prefix_char_ok(#[trigger] prefix[i])) {
        Some("S3 prefix is required or invalid"@)
    } else {
        None
    }
}

/// Whether an optional setting is missing or empty.
pub fn opt_is_empty(o: &Option<String>) -> (r: bool)
    ensures
        r == (opt_text(*o).len() == 0),
{
    match o {
        Some(s) => s.as_str().is_empty(),
        None => true,
    }
}

fn s3_prefix_ok(o: &Option<String>) -> (r: bool)
    ensures
        r == (opt_text(*o).len() > 0 && forall|i: int|
            0 <= i < opt_text(*o).len() ==> s3_prefix_char_ok(#[trigger] opt_text(*o)[i])),
{
    match o {
        None => false,
        Some(s) => {
            let cs = to_chars(s.as_str());
            if cs.len() == 0 {
                return false;
            }
            let mut i: usize = 0;
            assert(opt_text(*o) == cs@);
            while i < cs.len()
                invariant
                    i <= cs.len(),
                    cs@ == s@,
                    opt_text(*o) == cs@,
                    forall|j: int| 0 <= j < i ==> s3_prefix_char_ok(#[trigger] cs@[j]),
                decreases cs.len() - i,
            {
                let c = cs[i];
                if !(is_alphanumeric(c) || c == '_' || c == '/' || c == '-') {
                    assert(!s3_prefix_char_ok(opt_text(*o)[i as int]));
                    return false;
                }
                i = i + 1;
            }
            true
        },
    }
}

impl S3Credentials {
    /// Checks that every S3 setting is present and not empty, and that the prefix holds
    /// only alphanumerics, `_`, `/` and `-`; the first problem found is the error.
    pub fn validate_s3_credentials(&self) -> (r: Result<&S3Credentials, PGCliError>)
        ensures
            match s3_credentials_problem(*self) {
                None => r matches Ok(c) && c == self,
                Some(m) => r matches Err(e) && is_other_error(e, m),
            },
    {
        if opt_is_empty(&self.s3_endpoint) {
            return Err(PGCliError::Other("S3 endpoint is required".to_owned()));
        }
        if opt_is_empty(&self.s3_access_key) {
            return Err(PGCliError::Other("S3 access key is required".to_owned()));
        }
        if opt_is_empty(&self.s3_secret_key) {
            return Err(PGCliError::Other("S3 secret key is required".to_owned()));
        }
        if opt_is_empty(&self.s3_bucket) {
            return Err(PGCliError::Other("S3 bucket is required".to_owned()));
        }
        if opt_is_empty(&self.s3_region) {
            return Err(PGCliError::Other("S3 region is required".to_owned()));
        }
        if !s3_prefix_ok(&self.s3_prefix) {
            return Err(PGCliError::Other("S3 prefix is required or invalid".to_owned()));
        }
        Ok(self)
    }
}

/// `length` characters drawn at random from `a-z`, `A-Z`, `0-9` (rand's `Alphanumeric`
/// distribution on the thread-local generator). Only the length and the alphabet are
/// stated: which characters come out is chance.
#[verifier::external_body]
fn random_alphanumeric(length: usize) -> (r: Vec<char>)
    ensures
        r.len() == length,
        forall|i: int| 0 <= i < r.len() ==> is_ascii_alphanumeric(#[trigger] r@[i]),
{
    rand::rng().sample_iter(&rand::distr::Alphanumeric).take(length).map(char::from).collect()
}

/// ASCII lower case of a character.
pub open spec fn ascii_lower(c: char) -> char {
    if 'A' <= c && c <= 'Z' {
        ((c as u32) + 32) as char
    } else {
        c
    }
}

pub open spec fn is_ascii_upper(c: char) -> bool {
    'A' <= c && c <= 'Z'
}

/// The given characters as a string, in ASCII lower case when `to_lowercase` is set.
pub fn case_string(cs: &Vec<char>, to_lowercase: bool) -> (r: String)
    ensures
        r@.len() == cs.len(),
        forall|i: int|
            0 <= i < cs.len() ==> #[trigger] r@[i] == (if to_lowercase {
                ascii_lower(cs@[i])
            } else {
                cs@[i]
            }),
{
    let mut r = String::new();
    let mut i: usize = 0;
    while i < cs.len()
        invariant
            i <= cs.len(),
            r@.len() == i,
            forall|j: int|
                0 <= j < i ==> #[trigger] r@[j] == (if to_lowercase {
                    ascii_lower(cs@[j])
                } else {
                    cs@[j]
                }),
        decreases cs.len() - i,
    {
        let c = cs[i];
        let d = if to_lowercase && 'A' <= c && c <= 'Z' {
            lower_of_upper(c)
        } else {
            c
        };
        push_char(&mut r, d);
        i = i + 1;
    }
    r
}

/// The lower-case letter of an upper-case ASCII letter.
fn lower_of_upper(c: char) -> (r: char)
    requires
        'A' <= c && c <= 'Z',
    ensures
        r == ascii_lower(c),
{
    let code: u32 = (c as u32) + 32;
    assert(0x61 <= code <= 0x7a);
    char_from_ascii(code)
}

/// The character with an ASCII code point.
fn char_from_ascii(code: u32) -> (r: char)
    requires
        code < 128,
    ensures
        r == code as char,
{
    (code as u8) as char
}

/// A random string of `length` ASCII letters and digits, lower case when `to_lowercase`.
pub fn generate_random_string(length: usize, to_lowercase: bool) -> (r: String)
    ensures
        r@.len() == length,
        forall|i: int| 0 <= i < length ==> is_ascii_alphanumeric(#[trigger] r@[i]),
        to_lowercase ==> forall|i: int| 0 <= i < length ==> !is_ascii_upper(#[trigger] r@[i]),
{
    let cs = random_alphanumeric(length);
    let r = case_string(&cs, to_lowercase);
    assert forall|i: int| 0 <= i < length implies is_ascii_alphanumeric(#[trigger] r@[i]) && (
    to_lowercase ==> !is_ascii_upper(r@[i])) by {
        assert(is_ascii_alphanumeric(cs@[i]));
        assert(r@[i] == (if to_lowercase {
            ascii_lower(cs@[i])
        } else {
            cs@[i]
        }));
    }
    r
}


/// Whether a word (a maximal run of characters without white space) starts at `i` and
/// its first character is an ASCII digit.
pub open spec fn digit_word_starts_at(s: Seq<char>, i: int) -> bool {
    0 <= i < s.len() && is_digit(s[i]) && (i == 0 || white_space(s[i - 1]))
}

/// The first position at or after `i` where a word starting with a digit begins,
/// or `s.len()` when there is none.
pub open spec fn next_digit_word(s: Seq<char>, i: int) -> int
    decreases s.len() - i,
{
    if i < 0 || i >= s.len() {
        s.len() as int
    } else if digit_word_starts_at(s, i) {
        i
    } else {
        next_digit_word(s, i + 1)
    }
}

/// The end of the part of a word before its first `.`: the first position at or after
/// `i` holding `.` or white space, or `s.len()`.
pub open spec fn major_end(s: Seq<char>, i: int) -> int
    decreases s.len() - i,
{
    if i < 0 || i >= s.len() {
        s.len() as int
    } else if s[i] == '.' || white_space(s[i]) {
        i
    } else {
        major_end(s, i + 1)
    }
}

/// The major version in a `--version` output: of the first white-space separated word
/// that starts with an ASCII digit, the part before its first `.`, read as a `u32`.
pub open spec fn spec_parse_version(s: Seq<char>) -> Option<u32> {
    let i = next_digit_word(s, 0);
    if i >= s.len() {
        None
    } else {
        match parse_unsigned(s.subrange(i, major_end(s, i)), u32::MAX as nat) {
            Some(v) => Some(v as u32),
            None => None,
        }
    }
}

/// Reads the major version from the output of a `--version` call, such as 16 from
/// `pg_dump (PostgreSQL) 16.4`.
pub fn parse_version(version_output: &str) -> (r: Option<u32>)
    ensures
        r == spec_parse_version(version_output@),
{
    let cs = to_chars(version_output);
    let ghost s = version_output@;
    let mut i: usize = 0;
    while i < cs.len() && !((cs[i] >= '0' && cs[i] <= '9') && (i == 0 || is_whitespace(
        cs[i - 1],
    )))
        invariant
            i <= cs.len(),
            cs@ == s,
            next_digit_word(s, 0) == next_digit_word(s, i as int),
        decreases cs.len() - i,
    {
        i = i + 1;
    }
    if i >= cs.len() {
        return None;
    }
    assert(next_digit_word(s, i as int) == i);
    let mut k: usize = i;
    while k < cs.len() && !(cs[k] == '.' || is_whitespace(cs[k]))
        invariant
            i <= k <= cs.len(),
            cs@ == s,
            major_end(s, i as int) == major_end(s, k as int),
        decreases cs.len() - k,
    {
        k = k + 1;
    }
    assert(major_end(s, k as int) == k);
    let mut major: Vec<char> = Vec::new();
    let mut j: usize = i;
    while j < k
        invariant
            i <= j <= k <= cs.len(),
            cs@ == s,
            major@ == s.subrange(i as int, j as int),
        decreases k - j,
    {
        major.push(cs[j]);
        assert(major@ =~= s.subrange(i as int, j + 1));
        j = j + 1;
    }
    match parse_unsigned_chars(&major, 4294967295u64) {
        Some(v) => Some(v as u32),
        None => None,
    }
}

/// The complaint about one client program: missing, or older than `min`; empty when fine.
pub open spec fn tool_complaint(tool: Seq<char>, version: Option<u32>, min: u32) -> Seq<char> {
    match version {
        Some(v) => if v < min {
            tool + " version "@ + decimal(v as nat) + " is not supported. Minimum supported version is "@
                + decimal(min as nat) + "."@
        } else {
            Seq::<char>::empty()
        },
        None => tool + " tool not found."@,
    }
}

/// The message about `pg_dump`, `pg_restore` and `psql`, or `None` when all three are
/// present and at least version `min`.
pub open spec fn spec_pg_tools_message(
    pg_dump: Option<u32>,
    pg_restore: Option<u32>,
    psql: Option<u32>,
    min: u32,
) -> Option<Seq<char>> {
    let m = tool_complaint("pg_dump"@, pg_dump, min) + tool_complaint("pg_restore"@, pg_restore, min)
        + tool_complaint("psql"@, psql, min);
    if m.len() == 0 {
        None
    } else {
        Some(m + "\nPlease install "@ + "PostgreSQL"@ + " "@ + decimal(min as nat)
            + " or later.\nFor more information, visit: https://www.postgresql.org/download/"@)
    }
}

fn tool_complaint_text(tool: &str, version: Option<u32>, min: u32) -> (r: String)
    ensures
        r@ == tool_complaint(tool@, version, min),
{
    match version {
        Some(v) => {
            if v < min {
                let mut m = tool.to_owned();
                m.append(" version ");
                m.append(u64_to_decimal(v as u64).as_str());
                m.append(" is not supported. Minimum supported version is ");
                m.append(u64_to_decimal(min as u64).as_str());
                m.append(".");
                m
            } else {
                String::new()
            }
        },
        None => {
            let mut m = tool.to_owned();
            m.append(" tool not found.");
            m
        },
    }
}

/// The message that explains why the client programs cannot be used, if they cannot.
pub fn pg_tools_error_messages(
    pg_dump_version: Option<u32>,
    pg_restore_version: Option<u32>,
    psql_version: Option<u32>,
    min_version: u32,
) -> (r: Option<String>)
    ensures
        match spec_pg_tools_message(pg_dump_version, pg_restore_version, psql_version, min_version) {
            Some(m) => r matches Some(s) && s@ == m,
            None => r is None,
        },
{
    let mut m = tool_complaint_text("pg_dump", pg_dump_version, min_version);
    m.append(tool_complaint_text("pg_restore", pg_restore_version, min_version).as_str());
    m.append(tool_complaint_text("psql", psql_version, min_version).as_str());
    if m.as_str().is_empty() {
        None
    } else {
        m.append("\nPlease install ");
        m.append("PostgreSQL");
        m.append(" ");
        m.append(u64_to_decimal(min_version as u64).as_str());
        m.append(" or later.\nFor more information, visit: https://www.postgresql.org/download/");
        Some(m)
    }
}

/// A program was found and is at least version `min`.
pub open spec fn tool_usable(version: Option<u32>, min: u32) -> bool {
    match version {
        Some(v) => v >= min,
        None => false,
    }
}

/// The client programs are usable exactly when all three are present and recent enough.
pub proof fn law_pg_tools_message_none_iff_usable(
    pg_dump: Option<u32>,
    pg_restore: Option<u32>,
    psql: Option<u32>,
    min: u32,
)
    ensures
        spec_pg_tools_message(pg_dump, pg_restore, psql, min) is None <==> tool_usable(pg_dump, min)
            && tool_usable(pg_restore, min) && tool_usable(psql, min),
{
    reveal_strlit("pg_dump");
    reveal_strlit("pg_restore");
    reveal_strlit("psql");
    reveal_strlit(" tool not found.");
    reveal_strlit(" version ");
    assert("pg_dump"@.len() == 7);
    assert("pg_restore"@.len() == 10);
    assert("psql"@.len() == 4);
}

/// The path configured for a tool: the value of the first entry named `tool`, else
/// `tool` itself.
pub open spec fn spec_tool_command(commands: Seq<(String, String)>, tool: Seq<char>) -> Seq<char>
    decreases commands.len(),
{
    if commands.len() == 0 {
        tool
    } else if commands[0].0@ == tool {
        commands[0].1@
    } else {
        spec_tool_command(commands.drop_first(), tool)
    }
}

/// The program to run for `tool` (`pg_dump`, `pg_restore` or `psql`): a configured path
/// if there is one, else the tool's name, to be found on the search path.
pub fn pg_tool_command(commands: &Vec<(String, String)>, tool: &str) -> (r: String)
    ensures
        r@ == spec_tool_command(commands@, tool@),
{
    let mut i: usize = 0;
    assert(commands@.subrange(0, commands@.len() as int) =~= commands@);
    while i < commands.len()
        invariant
            i <= commands.len(),
            spec_tool_command(commands@, tool@) == spec_tool_command(
                commands@.subrange(i as int, commands@.len() as int),
                tool@,
            ),
        decreases commands.len() - i,
    {
        let ghost rest = commands@.subrange(i as int, commands@.len() as int);
        assert(rest[0] == commands@[i as int]);
        if str_eq(commands[i].0.as_str(), tool) {
            return commands[i].1.clone();
        }
        assert(rest.drop_first() =~= commands@.subrange(i + 1, commands@.len() as int));
        i = i + 1;
    }
    tool.to_owned()
}

/// The version found in the output of `tool --version`, `None` when it could not be run.
pub open spec fn tool_version(output: Option<String>) -> Option<u32> {
    match output {
        Some(o) => spec_parse_version(o@),
        None => None,
    }
}

fn version_of_output(output: &Option<String>) -> (r: Option<u32>)
    ensures
        r == tool_version(*output),
{
    match output {
        Some(o) => parse_version(o.as_str()),
        None => None,
    }
}

/// Decides whether the PostgreSQL client programs can be used, from what their
/// `--version` calls printed (`None` where a program could not be run): the three
/// programs to use, or a `PGToolsError` with the message.
pub fn check_pg_tools_version(
    commands: &Vec<(String, String)>,
    pg_dump_output: &Option<String>,
    pg_restore_output: &Option<String>,
    psql_output: &Option<String>,
    min_version: u32,
) -> (r: Result<PGTools, PGCliError>)
    ensures
        match spec_pg_tools_message(
            tool_version(*pg_dump_output),
            tool_version(*pg_restore_output),
            tool_version(*psql_output),
            min_version,
        ) {
            Some(m) => r matches Err(e) && e matches PGCliError::PGToolsError(s) && s@ == m,
            None => r matches Ok(t) && t.pg_dump@ == spec_tool_command(commands@, "pg_dump"@)
                && t.pg_restore@ == spec_tool_command(commands@, "pg_restore"@) && t.psql@
                == spec_tool_command(commands@, "psql"@),
        },
{
    let pg_dump = pg_tool_command(commands, "pg_dump");
    let pg_restore = pg_tool_command(commands, "pg_restore");
    let psql = pg_tool_command(commands, "psql");
    let d = version_of_output(pg_dump_output);
    let rv = version_of_output(pg_restore_output);
    let p = version_of_output(psql_output);
    match pg_tools_error_messages(d, rv, p, min_version) {
        Some(m) => Err(PGCliError::PGToolsError(m)),
        None => Ok(PGTools::new(pg_dump, pg_restore, psql)),
    }
}


/// The archive file name: `output_file`, with `.tar.xz` appended unless it already ends so.
pub open spec fn spec_archive_file_name(output_file: Seq<char>) -> Seq<char> {
    if ends_with(output_file, ".tar.xz"@) {
        output_file
    } else {
        output_file + ".tar.xz"@
    }
}

/// The file that a compressed archive is written to.
pub fn archive_file_name(output_file: &str) -> (r: String)
    ensures
        r@ == spec_archive_file_name(output_file@),
{
    let mut r = output_file.to_owned();
    if !str_ends_with(output_file, ".tar.xz") {
        r.append(".tar.xz");
    }
    r
}

/// Appending the archive suffix twice changes nothing more.
pub proof fn law_archive_file_name_idempotent(output_file: Seq<char>)
    ensures
        spec_archive_file_name(spec_archive_file_name(output_file)) == spec_archive_file_name(
            output_file,
        ),
        ends_with(spec_archive_file_name(output_file), ".tar.xz"@),
{
    let t = ".tar.xz"@;
    let a = spec_archive_file_name(output_file);
    if !ends_with(output_file, t) {
        assert(a.subrange(a.len() - t.len(), a.len() as int) =~= t);
    }
}

/// The key of an uploaded object: the prefix (empty when missing), `/`, the file key.
pub open spec fn spec_upload_key(prefix: Option<String>, file_key: Seq<char>) -> Seq<char> {
    opt_text(prefix) + "/"@ + file_key
}

/// The key under which `multipart_upload` stores a file.
pub fn upload_key(s3: &S3Credentials, file_key: &str) -> (r: String)
    ensures
        r@ == spec_upload_key(s3.s3_prefix, file_key@),
{
    let mut r = match &s3.s3_prefix {
        Some(p) => p.clone(),
        None => String::new(),
    };
    r.append("/");
    r.append(file_key);
    r
}

/// The key of a downloaded object: `prefix/file_key`, or the file key alone without prefix.
pub open spec fn spec_download_key(prefix: Option<String>, file_key: Seq<char>) -> Seq<char> {
    match prefix {
        Some(p) => p@ + "/"@ + file_key,
        None => file_key,
    }
}

/// The key that `download_file` fetches.
pub fn download_key(s3: &S3Credentials, file_key: &str) -> (r: String)
    ensures
        r@ == spec_download_key(s3.s3_prefix, file_key@),
{
    match &s3.s3_prefix {
        Some(p) => {
            let mut r = p.clone();
            r.append("/");
            r.append(file_key);
            r
        },
        None => file_key.to_owned(),
    }
}

/// With S3 settings that pass validation (a prefix is then always set), the key a file is
/// uploaded under is the key that a download of the same name fetches.
pub proof fn law_upload_and_download_keys_agree(s3: S3Credentials, file_key: Seq<char>)
    requires
        s3_credentials_problem(s3) is None,
    ensures
        spec_upload_key(s3.s3_prefix, file_key) == spec_download_key(s3.s3_prefix, file_key),
{
}

/// Where the S3 client connects.
#[derive(Debug, Clone, PartialEq, Eq)]
pub enum S3Region {
    /// A custom endpoint, with a region name.
    Custom { name: String, endpoint: String },
    /// A named AWS region; names that are not regions mean `us-east-1`.
    Named(String),
    /// The default region, `us-east-1`.
    UsEast1,
}

/// The region to connect to: with an endpoint, a custom region named after the region
/// setting (`us-east-1` when missing); without, the named region, else `us-east-1`.
pub fn s3_region(s3: &S3Credentials) -> (r: S3Region)
    ensures
        match s3.s3_endpoint {
            Some(e) => r matches S3Region::Custom { name, endpoint } && endpoint@ == e@ && name@
                == (match s3.s3_region {
                Some(n) => n@,
                None => "us-east-1"@,
            }),
            None => match s3.s3_region {
                Some(n) => r matches S3Region::Named(m) && m@ == n@,
                None => r is UsEast1,
            },
        },
{
    match &s3.s3_endpoint {
        Some(e) => {
            let name = match &s3.s3_region {
                Some(n) => n.clone(),
                None => "us-east-1".to_owned(),
            };
            S3Region::Custom { name, endpoint: e.clone() }
        },
        None => match &s3.s3_region {
            Some(n) => S3Region::Named(n.clone()),
            None => S3Region::UsEast1,
        },
    }
}

/// Size of one uploaded part when the file is large: 10 MiB.
pub const UPLOAD_PART_SIZE: u64 = 10485760;

/// The read buffer for a multipart upload: 10 MiB for files over 10 MiB, else one and a
/// half times the file size, rounded down.
pub fn upload_buffer_size(file_size: u64) -> (r: u64)
    ensures
        r == (if file_size > UPLOAD_PART_SIZE {
            UPLOAD_PART_SIZE as int
        } else {
            (file_size * 3) / 2
        }),
{
    if file_size > UPLOAD_PART_SIZE {
        UPLOAD_PART_SIZE
    } else {
        file_size + file_size / 2
    }
}

} // verus!
