//! Names, the `.pgpass` credentials file, client program arguments, fuzzy filtering.
use vstd::prelude::*;

use crate::structs::{
    fails_with, is_other_error, CredentialsView, DatabaseDetails, PGCliError, PGTools, PostgresCredentials, SqlFileFormat, UserDetails,
};
use nucleo_matcher::pattern::{CaseMatching, Normalization, Pattern};
use nucleo_matcher::{Config, Matcher, Utf32Str};
use crate::text::{
    all_digits, alphanumeric, decimal, lemma_decimal_digits, lemma_parse_decimal,
    lemma_split_on_concat, lemma_split_on_no_sep, strip_cr, is_alphanumeric, lines_of, lines_str, parse_unsigned,
    parse_unsigned_chars, split_on, split_str, str_eq, to_chars, trim, trim_str, u64_to_decimal,
    white_space, starts_with, ends_with,
};

verus! {

/// A name that may be put in a statement: Unicode alphanumerics, `_` and `-` only.
pub open spec fn valid_pg_name(s: Seq<char>) -> bool {
    forall|i: int| 0 <= i < s.len() ==> #[trigger] pg_name_char(s[i])
}

pub open spec fn pg_name_char(c: char) -> bool {
    alphanumeric(c) || c == '_' || c == '-'
}

/// Whether a role, database, extension name or password is safe to put in a statement.
pub fn validate_pg_names(name: &str) -> (r: bool)
    ensures
        r == valid_pg_name(name@),
{
    let cs = to_chars(name);
    let mut i: usize = 0;
    while i < cs.len()
        invariant
            i <= cs.len(),
            cs@ == name@,
            forall|j: int| 0 <= j < i ==> #[trigger] pg_name_char(cs@[j]),
        decreases cs.len() - i,
    {
        let c = cs[i];
        if !(is_alphanumeric(c) || c == '_' || c == '-') {
            assert(!pg_name_char(name@[i as int]));
            return false;
        }
        i = i + 1;
    }
    true
}

/// The views of a list of credentials.
pub open spec fn cred_views(v: Seq<PostgresCredentials>) -> Seq<CredentialsView> {
    v.map_values(|c: PostgresCredentials| c@)
}

/// Whether `c` is among the credentials.
pub open spec fn has_credentials(v: Seq<CredentialsView>, c: CredentialsView) -> bool {
    exists|k: int| 0 <= k < v.len() && v[k] == c
}

/// Whether the credentials read from `.pgpass` include `pgpass`, all four fields equal.
pub fn compare_pgpass_credentials(
    credentials: &Vec<PostgresCredentials>,
    pgpass: &PostgresCredentials,
) -> (r: bool)
    ensures
        r == has_credentials(cred_views(credentials@), pgpass@),
{
    let mut i: usize = 0;
    while i < credentials.len()
        invariant
            i <= credentials.len(),
            forall|k: int| 0 <= k < i ==> credentials@[k]@ != pgpass@,
        decreases credentials.len() - i,
    {
        if credentials[i].same_as(pgpass) {
            assert(cred_views(credentials@)[i as int] == pgpass@);
            return true;
        }
        i = i + 1;
    }
    assert forall|k: int| 0 <= k < cred_views(credentials@).len() implies cred_views(
        credentials@,
    )[k] != pgpass@ by {
        assert(cred_views(credentials@)[k] == credentials@[k]@);
    }
    false
}

/// One `.pgpass` line without its line end: `host:port:*:user:password`.
pub open spec fn pgpass_line_text(c: CredentialsView) -> Seq<char> {
    c.hostname + ":"@ + decimal(c.port as nat) + ":"@ + "*"@ + ":"@ + c.superuser + ":"@
        + c.password
}

/// The `.pgpass` text for a list of credentials: one line each, every line ended by `\n`.
pub open spec fn pgpass_content(cs: Seq<CredentialsView>) -> Seq<char>
    decreases cs.len(),
{
    if cs.len() == 0 {
        Seq::<char>::empty()
    } else {
        pgpass_line_text(cs[0]) + "\n"@ + pgpass_content(cs.drop_first())
    }
}

pub proof fn lemma_pgpass_content_push(cs: Seq<CredentialsView>, c: CredentialsView)
    ensures
        pgpass_content(cs.push(c)) == pgpass_content(cs) + pgpass_line_text(c) + "\n"@,
    decreases cs.len(),
{
    if cs.len() == 0 {
        assert(cs.push(c).drop_first() =~= Seq::<CredentialsView>::empty());
        assert(pgpass_content(cs.push(c).drop_first()) == Seq::<char>::empty());
        assert(cs.push(c)[0] == c);
        assert(pgpass_content(cs.push(c)) =~= pgpass_line_text(c) + "\n"@ + Seq::<char>::empty());
    } else {
        lemma_pgpass_content_push(cs.drop_first(), c);
        assert(cs.push(c).drop_first() =~= cs.drop_first().push(c));
        assert(cs.push(c)[0] == cs[0]);
        assert(pgpass_content(cs.push(c)) =~= pgpass_content(cs) + pgpass_line_text(c) + "\n"@);
    }
}

/// One `.pgpass` line, with its `\n`.
pub fn pgpass_line(c: &PostgresCredentials) -> (r: String)
    ensures
        r@ == pgpass_line_text(c@) + "\n"@,
{
    let mut r = c.pg_hostname.clone();
    r.append(":");
    r.append(u64_to_decimal(c.pg_port as u64).as_str());
    r.append(":");
    r.append("*");
    r.append(":");
    r.append(c.pg_superuser.as_str());
    r.append(":");
    r.append(c.pg_password.as_str());
    r.append("\n");
    r
}

/// The text written to `.pgpass` for the credentials, one line each in order.
pub fn pgpass_file_content(credentials: &Vec<PostgresCredentials>) -> (r: String)
    ensures
        r@ == pgpass_content(cred_views(credentials@)),
{
    let mut r = String::new();
    let mut i: usize = 0;
    while i < credentials.len()
        invariant
            i <= credentials.len(),
            r@ == pgpass_content(cred_views(credentials@).take(i as int)),
        decreases credentials.len() - i,
    {
        let line = pgpass_line(&credentials[i]);
        proof {
            let cv = cred_views(credentials@);
            lemma_pgpass_content_push(cv.take(i as int), cv[i as int]);
            assert(cv.take(i as int).push(cv[i as int]) =~= cv.take(i + 1));
        }
        r.append(line.as_str());
        i = i + 1;
    }
    assert(cred_views(credentials@).take(credentials.len() as int) =~= cred_views(credentials@));
    r
}


/// The `:`-separated fields of a `.pgpass` line, after trimming white space.
pub open spec fn pgpass_fields(line: Seq<char>) -> Seq<Seq<char>> {
    split_on(trim(line), ':')
}

/// The credentials on one `.pgpass` line: `host:port:database:user:password`, the
/// database field ignored; `None` for a line without exactly five fields or whose port is
/// not a `u16`.
pub open spec fn pgpass_entry(line: Seq<char>) -> Option<CredentialsView> {
    let f = pgpass_fields(line);
    if f.len() != 5 {
        None
    } else {
        match parse_unsigned(f[1], 65535) {
            Some(port) => Some(
                CredentialsView { hostname: f[0], superuser: f[3], password: f[4], port: port as u16 },
            ),
            None => None,
        }
    }
}

/// A line that gives credentials or is not meant to: not five fields, or five fields with
/// a port that is a `u16`.
pub open spec fn pgpass_line_readable(line: Seq<char>) -> bool {
    pgpass_fields(line).len() != 5 || parse_unsigned(pgpass_fields(line)[1], 65535) is Some
}

/// A `.pgpass` text in which no five-field line has a bad port.
pub open spec fn pgpass_readable(content: Seq<char>) -> bool {
    forall|i: int| 0 <= i < lines_of(content).len() ==> #[trigger] pgpass_line_readable(
        lines_of(content)[i],
    )
}

/// The credentials by host name that a list of lines gives, later lines replacing
/// earlier ones for the same host.
pub open spec fn pgpass_map_of_lines(lines: Seq<Seq<char>>) -> Map<Seq<char>, CredentialsView>
    decreases lines.len(),
{
    if lines.len() == 0 {
        Map::empty()
    } else {
        let m = pgpass_map_of_lines(lines.drop_last());
        match pgpass_entry(lines.last()) {
            Some(c) => m.insert(c.hostname, c),
            None => m,
        }
    }
}

/// The credentials by host name that a `.pgpass` text gives.
pub open spec fn pgpass_map(content: Seq<char>) -> Map<Seq<char>, CredentialsView> {
    pgpass_map_of_lines(lines_of(content))
}

/// A list of credentials with distinct host names whose entries are exactly those of `m`.
pub open spec fn represents(v: Seq<CredentialsView>, m: Map<Seq<char>, CredentialsView>) -> bool {
    &&& forall|k: int|
        0 <= k < v.len() ==> #[trigger] m.contains_key(v[k].hostname) && m[v[k].hostname] == v[k]
    &&& forall|h: Seq<char>|
        #[trigger] m.contains_key(h) ==> exists|k: int| 0 <= k < v.len() && v[k].hostname == h
    &&& forall|j: int, k: int|
        0 <= j < k < v.len() ==> #[trigger] v[j].hostname != #[trigger] v[k].hostname
}

/// Whether every line of a `.pgpass` text can be read (five fields have a valid port).
pub fn pgpass_is_readable(content: &str) -> (r: bool)
    ensures
        r == pgpass_readable(content@),
{
    let lines = lines_str(content);
    let mut i: usize = 0;
    while i < lines.len()
        invariant
            i <= lines.len(),
            crate::text::views(lines@) == lines_of(content@),
            forall|j: int| 0 <= j < i ==> #[trigger] pgpass_line_readable(lines_of(content@)[j]),
        decreases lines.len() - i,
    {
        assert(lines_of(content@)[i as int] == lines@[i as int]@);
        let t = trim_str(lines[i].as_str());
        let parts = split_str(t.as_str(), ':');
        if parts.len() == 5 {
            let port_chars = to_chars(parts[1].as_str());
            assert(crate::text::views(parts@)[1] == parts@[1]@);
            if parse_unsigned_chars(&port_chars, 65535).is_none() {
                assert(!pgpass_line_readable(lines_of(content@)[i as int]));
                return false;
            }
        }
        i = i + 1;
    }
    true
}

/// Reads the credentials of a `.pgpass` text: one entry per host, the last line for a
/// host winning; lines without five `:`-separated fields, or whose port is not a `u16`,
/// give nothing.
pub fn parse_pgpass(content: &str) -> (r: Vec<PostgresCredentials>)
    ensures
        represents(cred_views(r@), pgpass_map(content@)),
{
    let lines = lines_str(content);
    let ghost ls = lines_of(content@);
    let mut result: Vec<PostgresCredentials> = Vec::new();
    let mut i: usize = 0;
    assert(ls.take(0) =~= Seq::<Seq<char>>::empty());
    while i < lines.len()
        invariant
            i <= lines.len(),
            crate::text::views(lines@) == ls,
            ls == lines_of(content@),
            represents(cred_views(result@), pgpass_map_of_lines(ls.take(i as int))),
        decreases lines.len() - i,
    {
        let ghost before = pgpass_map_of_lines(ls.take(i as int));
        assert(ls.take(i + 1).drop_last() =~= ls.take(i as int));
        assert(ls.take(i + 1).last() == ls[i as int]);
        assert(ls[i as int] == lines@[i as int]@);
        let t = trim_str(lines[i].as_str());
        let parts = split_str(t.as_str(), ':');
        if parts.len() == 5 {
            let port_chars = to_chars(parts[1].as_str());
            assert(crate::text::views(parts@)[1] == parts@[1]@);
            assert(crate::text::views(parts@)[0] == parts@[0]@);
            assert(crate::text::views(parts@)[3] == parts@[3]@);
            assert(crate::text::views(parts@)[4] == parts@[4]@);
            let parsed = parse_unsigned_chars(&port_chars, 65535);
            if parsed.is_none() {
                assert(pgpass_entry(ls[i as int]) is None);
                i = i + 1;
                continue;
            }
            let port = parsed.unwrap() as u16;
            let cred = PostgresCredentials::new(
                parts[0].clone(),
                parts[3].clone(),
                parts[4].clone(),
                port,
            );
            let ghost c = cred@;
            assert(pgpass_entry(ls[i as int]) == Some(c));
            let mut k: usize = 0;
            while k < result.len() && !str_eq(
                result[k].pg_hostname.as_str(),
                cred.pg_hostname.as_str(),
            )
                invariant
                    k <= result.len(),
                    c == cred@,
                    forall|j: int| 0 <= j < k ==> result@[j]@.hostname != c.hostname,
                decreases result.len() - k,
            {
                k = k + 1;
            }
            let ghost old_v = cred_views(result@);
            if k < result.len() {
                assert(old_v[k as int].hostname == c.hostname);
                result.set(k, cred);
                proof {
                    let v = cred_views(result@);
                    assert(v =~= old_v.update(k as int, c));
                    lemma_represents_replace(old_v, before, k as int, c);
                }
            } else {
                result.push(cred);
                proof {
                    let v = cred_views(result@);
                    assert(v =~= old_v.push(c));
                    assert forall|j: int| 0 <= j < old_v.len() implies old_v[j].hostname
                        != c.hostname by {
                        assert(old_v[j] == result@[j]@);
                    }
                    lemma_represents_push(old_v, before, c);
                }
            }
        } else {
            assert(pgpass_entry(ls[i as int]) is None);
        }
        i = i + 1;
    }
    assert(ls.take(lines.len() as int) =~= ls);
    result
}

proof fn lemma_represents_replace(
    v: Seq<CredentialsView>,
    m: Map<Seq<char>, CredentialsView>,
    k: int,
    c: CredentialsView,
)
    requires
        represents(v, m),
        0 <= k < v.len(),
        v[k].hostname == c.hostname,
    ensures
        represents(v.update(k, c), m.insert(c.hostname, c)),
{
    let w = v.update(k, c);
    let n = m.insert(c.hostname, c);
    assert forall|j: int| 0 <= j < w.len() implies #[trigger] n.contains_key(w[j].hostname)
        && n[w[j].hostname] == w[j] by {
        if j != k {
            assert(v[j].hostname != v[k].hostname) by {
                if j < k {
                    assert(v[j].hostname != v[k].hostname);
                } else {
                    assert(v[k].hostname != v[j].hostname);
                }
            }
            assert(m.contains_key(v[j].hostname));
        }
    }
    assert forall|h: Seq<char>| #[trigger] n.contains_key(h) implies exists|j: int|
        0 <= j < w.len() && w[j].hostname == h by {
        if h == c.hostname {
            assert(w[k].hostname == h);
        } else {
            assert(m.contains_key(h));
            let j = choose|j: int| 0 <= j < v.len() && v[j].hostname == h;
            assert(w[j].hostname == h);
        }
    }
    assert forall|a: int, b: int| 0 <= a < b < w.len() implies #[trigger] w[a].hostname
        != #[trigger] w[b].hostname by {
        assert(v[a].hostname != v[b].hostname);
    }
}

proof fn lemma_represents_push(
    v: Seq<CredentialsView>,
    m: Map<Seq<char>, CredentialsView>,
    c: CredentialsView,
)
    requires
        represents(v, m),
        forall|j: int| 0 <= j < v.len() ==> v[j].hostname != c.hostname,
    ensures
        represents(v.push(c), m.insert(c.hostname, c)),
{
    let w = v.push(c);
    let n = m.insert(c.hostname, c);
    assert forall|j: int| 0 <= j < w.len() implies #[trigger] n.contains_key(w[j].hostname)
        && n[w[j].hostname] == w[j] by {
        if j < v.len() {
            assert(w[j] == v[j]);
            assert(m.contains_key(v[j].hostname));
        }
    }
    assert forall|h: Seq<char>| #[trigger] n.contains_key(h) implies exists|j: int|
        0 <= j < w.len() && w[j].hostname == h by {
        if h == c.hostname {
            assert(w[v.len() as int].hostname == h);
        } else {
            assert(m.contains_key(h));
            let j = choose|j: int| 0 <= j < v.len() && v[j].hostname == h;
            assert(w[j].hostname == h);
        }
    }
    assert forall|a: int, b: int| 0 <= a < b < w.len() implies #[trigger] w[a].hostname
        != #[trigger] w[b].hostname by {
        if b < v.len() {
            assert(v[a].hostname != v[b].hostname);
        } else {
            assert(w[a] == v[a]);
        }
    }
}


/// A field that fits in a `.pgpass` line: no `:` and no line feed.
pub open spec fn pgpass_field_ok(s: Seq<char>) -> bool {
    !s.contains(':') && !s.contains('\n')
}

/// Credentials that a `.pgpass` line can hold so that reading it gives them back: no
/// field holds `:` or a line feed, the host name does not start with white space and the
/// password does not end with white space (`.pgpass` lines are trimmed when read).
pub open spec fn pgpass_writable(c: CredentialsView) -> bool {
    &&& pgpass_field_ok(c.hostname)
    &&& pgpass_field_ok(c.superuser)
    &&& pgpass_field_ok(c.password)
    &&& c.hostname.len() > 0 ==> !white_space(c.hostname[0])
    &&& c.password.len() > 0 ==> !white_space(c.password.last())
}

/// Credentials by host name, later entries replacing earlier ones for the same host.
pub open spec fn credentials_map(cs: Seq<CredentialsView>) -> Map<Seq<char>, CredentialsView>
    decreases cs.len(),
{
    if cs.len() == 0 {
        Map::empty()
    } else {
        credentials_map(cs.drop_last()).insert(cs.last().hostname, cs.last())
    }
}

proof fn lemma_no_char_concat(a: Seq<char>, b: Seq<char>, c: char)
    requires
        !a.contains(c),
        !b.contains(c),
    ensures
        !(a + b).contains(c),
{
    if (a + b).contains(c) {
        let k = choose|k: int| 0 <= k < (a + b).len() && (a + b)[k] == c;
        if k < a.len() {
            assert(a[k] == c);
        } else {
            assert(b[k - a.len()] == c);
        }
    }
}

proof fn lemma_digits_no_char(s: Seq<char>, c: char)
    requires
        all_digits(s),
        !('0' <= c && c <= '9'),
    ensures
        !s.contains(c),
{
    if s.contains(c) {
        let k = choose|k: int| 0 <= k < s.len() && s[k] == c;
        assert(crate::text::is_digit(s[k]));
    }
}

proof fn lemma_literals()
    ensures
        ":"@ == seq![':'],
        "*"@ == seq!['*'],
        "\n"@ == seq!['\n'],
{
    reveal_strlit(":");
    reveal_strlit("*");
    reveal_strlit("\n");
    assert(":"@ =~= seq![':']);
    assert("*"@ =~= seq!['*']);
    assert("\n"@ =~= seq!['\n']);
}

/// A written line reads back as the credentials it was written from.
proof fn lemma_pgpass_entry_of_line(c: CredentialsView)
    requires
        pgpass_writable(c),
    ensures
        pgpass_entry(pgpass_line_text(c)) == Some(c),
        pgpass_line_readable(pgpass_line_text(c)),
        !pgpass_line_text(c).contains('\n'),
        strip_cr(pgpass_line_text(c)) == pgpass_line_text(c),
{
    lemma_literals();
    let d = decimal(c.port as nat);
    lemma_decimal_digits(c.port as nat);
    lemma_digits_no_char(d, ':');
    lemma_digits_no_char(d, '\n');
    let colon = seq![':'];
    let star = seq!['*'];
    assert(!star.contains(':'));
    assert(!star.contains('\n'));
    assert(!colon.contains('\n'));
    let t4 = c.superuser + colon + c.password;
    let t3 = star + colon + t4;
    let t2 = d + colon + t3;
    let line = c.hostname + colon + t2;
    assert(pgpass_line_text(c) =~= line);
    // no line feed anywhere
    lemma_no_char_concat(c.superuser, colon, '\n');
    lemma_no_char_concat(c.superuser + colon, c.password, '\n');
    lemma_no_char_concat(star, colon, '\n');
    lemma_no_char_concat(star + colon, t4, '\n');
    lemma_no_char_concat(d, colon, '\n');
    lemma_no_char_concat(d + colon, t3, '\n');
    lemma_no_char_concat(c.hostname, colon, '\n');
    lemma_no_char_concat(c.hostname + colon, t2, '\n');
    // trimming changes nothing
    assert(line.len() > 0);
    assert(!white_space(line[0])) by {
        if c.hostname.len() == 0 {
            assert(line[0] == ':');
        } else {
            assert(line[0] == c.hostname[0]);
        }
    }
    assert(!white_space(line.last())) by {
        if c.password.len() == 0 {
            assert(line.last() == ':');
        } else {
            assert(line.last() == c.password.last());
        }
    }
    assert(crate::text::trim_start(line) == line);
    assert(crate::text::trim_end(line) == line);
    assert(trim(line) == line);
    assert(strip_cr(line) == line);
    // the five fields
    lemma_split_on_concat(c.superuser, c.password, ':');
    lemma_split_on_no_sep(c.superuser, ':');
    lemma_split_on_no_sep(c.password, ':');
    lemma_split_on_concat(star, t4, ':');
    lemma_split_on_no_sep(star, ':');
    lemma_split_on_concat(d, t3, ':');
    lemma_split_on_no_sep(d, ':');
    lemma_split_on_concat(c.hostname, t2, ':');
    lemma_split_on_no_sep(c.hostname, ':');
    let f = split_on(line, ':');
    assert(f =~= seq![c.hostname, d, star, c.superuser, c.password]);
    lemma_parse_decimal(c.port as nat, 65535);
    assert(parse_unsigned(f[1], 65535) == Some(c.port as nat));
}

proof fn lemma_pgpass_content_unfold(cs: Seq<CredentialsView>)
    requires
        cs.len() > 0,
    ensures
        pgpass_content(cs) == pgpass_line_text(cs[0]) + "\n"@ + pgpass_content(cs.drop_first()),
{
}

proof fn lemma_pgpass_split(cs: Seq<CredentialsView>)
    requires
        forall|i: int| 0 <= i < cs.len() ==> pgpass_writable(#[trigger] cs[i]),
    ensures
        split_on(pgpass_content(cs), '\n') == cs.map_values(|c: CredentialsView| pgpass_line_text(c))
            + seq![Seq::<char>::empty()],
    decreases cs.len(),
{
    lemma_literals();
    let ls = cs.map_values(|c: CredentialsView| pgpass_line_text(c));
    if cs.len() == 0 {
        assert(split_on(Seq::<char>::empty(), '\n') =~= seq![Seq::<char>::empty()]);
        assert(ls + seq![Seq::<char>::empty()] =~= seq![Seq::<char>::empty()]);
    } else {
        let rest = cs.drop_first();
        assert forall|i: int| 0 <= i < rest.len() implies pgpass_writable(#[trigger] rest[i]) by {
            assert(rest[i] == cs[i + 1]);
        }
        lemma_pgpass_split(rest);
        assert(pgpass_writable(cs[0]));
        lemma_pgpass_entry_of_line(cs[0]);
        let t = pgpass_line_text(cs[0]);
        lemma_pgpass_content_unfold(cs);
        assert(pgpass_content(cs) =~= t + seq!['\n'] + pgpass_content(rest));
        lemma_split_on_concat(t, pgpass_content(rest), '\n');
        lemma_split_on_no_sep(t, '\n');
        assert(ls =~= seq![t] + rest.map_values(|c: CredentialsView| pgpass_line_text(c)));
        assert(split_on(pgpass_content(cs), '\n') =~= ls + seq![Seq::<char>::empty()]);
    }
}

proof fn lemma_pgpass_map_of_written(cs: Seq<CredentialsView>)
    requires
        forall|i: int| 0 <= i < cs.len() ==> pgpass_writable(#[trigger] cs[i]),
    ensures
        pgpass_map_of_lines(cs.map_values(|c: CredentialsView| pgpass_line_text(c)))
            == credentials_map(cs),
    decreases cs.len(),
{
    let ls = cs.map_values(|c: CredentialsView| pgpass_line_text(c));
    if cs.len() > 0 {
        let init = cs.drop_last();
        assert forall|i: int| 0 <= i < init.len() implies pgpass_writable(#[trigger] init[i]) by {
            assert(init[i] == cs[i]);
        }
        lemma_pgpass_map_of_written(init);
        assert(ls.drop_last() =~= init.map_values(|c: CredentialsView| pgpass_line_text(c)));
        assert(pgpass_writable(cs[cs.len() - 1]));
        lemma_pgpass_entry_of_line(cs.last());
        assert(ls.last() == pgpass_line_text(cs.last()));
    } else {
        assert(ls =~= Seq::<Seq<char>>::empty());
    }
}

/// Reading back a `.pgpass` text written from credentials gives those credentials, by
/// host name, the last one written for a host winning; and no line of it is skipped.
pub proof fn law_pgpass_read_after_write(cs: Seq<CredentialsView>)
    requires
        forall|i: int| 0 <= i < cs.len() ==> pgpass_writable(#[trigger] cs[i]),
    ensures
        pgpass_readable(pgpass_content(cs)),
        pgpass_map(pgpass_content(cs)) == credentials_map(cs),
{
    let ls = cs.map_values(|c: CredentialsView| pgpass_line_text(c));
    let content = pgpass_content(cs);
    lemma_pgpass_split(cs);
    let parts = split_on(content, '\n');
    assert(parts.last() == Seq::<char>::empty());
    assert(parts.drop_last() =~= ls);
    assert forall|i: int| 0 <= i < ls.len() implies strip_cr(ls[i]) == ls[i] by {
        assert(pgpass_writable(cs[i]));
        lemma_pgpass_entry_of_line(cs[i]);
    }
    assert(lines_of(content) =~= ls);
    lemma_pgpass_map_of_written(cs);
    assert forall|i: int| 0 <= i < lines_of(content).len() implies #[trigger] pgpass_line_readable(
        lines_of(content)[i],
    ) by {
        assert(pgpass_writable(cs[i]));
        lemma_pgpass_entry_of_line(cs[i]);
        assert(lines_of(content)[i] == ls[i]);
    }
}


/// With distinct host names, each credential is what the map gives for its host.
proof fn lemma_credentials_map_distinct(cs: Seq<CredentialsView>)
    requires
        forall|j: int, k: int| 0 <= j < k < cs.len() ==> #[trigger] cs[j].hostname != #[trigger] cs[k].hostname,
    ensures
        forall|k: int|
            0 <= k < cs.len() ==> #[trigger] credentials_map(cs).contains_key(cs[k].hostname)
                && credentials_map(cs)[cs[k].hostname] == cs[k],
    decreases cs.len(),
{
    if cs.len() > 0 {
        let init = cs.drop_last();
        assert forall|j: int, k: int| 0 <= j < k < init.len() implies #[trigger] init[j].hostname
            != #[trigger] init[k].hostname by {
            assert(init[j] == cs[j] && init[k] == cs[k]);
        }
        lemma_credentials_map_distinct(init);
        assert forall|k: int| 0 <= k < cs.len() implies #[trigger] credentials_map(cs).contains_key(
            cs[k].hostname,
        ) && credentials_map(cs)[cs[k].hostname] == cs[k] by {
            let last = cs.last();
            assert(credentials_map(cs) == credentials_map(init).insert(last.hostname, last));
            if k < cs.len() - 1 {
                assert(init[k] == cs[k]);
                assert(credentials_map(init).contains_key(init[k].hostname));
                assert(cs[k].hostname != cs[cs.len() - 1].hostname);
            } else {
                assert(cs[k] == last);
            }
        }
    }
}

/// After `.pgpass` is written with credentials that include every one asked for, each
/// with its own host name and each writable, reading the file back gives, for the host of
/// every credential asked for, that credential.
pub proof fn law_pgpass_read_back_after_init(credentials: Seq<CredentialsView>, written: Seq<CredentialsView>)
    requires
        all_stored(written, credentials),
        forall|i: int| 0 <= i < written.len() ==> pgpass_writable(#[trigger] written[i]),
        forall|j: int, k: int|
            0 <= j < k < written.len() ==> #[trigger] written[j].hostname != #[trigger] written[k].hostname,
    ensures
        pgpass_readable(pgpass_content(written)),
        forall|k: int|
            0 <= k < credentials.len() ==> #[trigger] pgpass_map(pgpass_content(written)).contains_key(
                credentials[k].hostname,
            ) && pgpass_map(pgpass_content(written))[credentials[k].hostname] == credentials[k],
{
    law_pgpass_read_after_write(written);
    lemma_credentials_map_distinct(written);
    assert forall|k: int| 0 <= k < credentials.len() implies #[trigger] pgpass_map(
        pgpass_content(written),
    ).contains_key(credentials[k].hostname) && pgpass_map(pgpass_content(written))[credentials[k].hostname]
        == credentials[k] by {
        assert(has_credentials(written, credentials[k]));
        let j = choose|j: int| 0 <= j < written.len() && written[j] == credentials[k];
        assert(credentials_map(written).contains_key(written[j].hostname));
    }
}

/// Every host the map of a list of credentials knows is the host of one of them.
proof fn lemma_credentials_map_domain(cs: Seq<CredentialsView>, h: Seq<char>)
    requires
        credentials_map(cs).contains_key(h),
    ensures
        exists|k: int| 0 <= k < cs.len() && #[trigger] cs[k].hostname == h,
    decreases cs.len(),
{
    if cs.len() > 0 && cs.last().hostname != h {
        lemma_credentials_map_domain(cs.drop_last(), h);
        let k = choose|k: int| 0 <= k < cs.drop_last().len() && #[trigger] cs.drop_last()[k].hostname == h;
        assert(cs[k] == cs.drop_last()[k]);
    } else if cs.len() > 0 {
        assert(cs[cs.len() - 1].hostname == h);
    }
}

/// Writing `.pgpass` with what `pgpass_credentials_to_write` gives (every credential asked
/// for and every one already in the file, each once) loses nothing: when all of them are
/// writable and their host names differ, reading the file back gives exactly the
/// credentials asked for and those that were already there, each under its host.
pub proof fn law_pgpass_init_keeps_existing(
    credentials: Seq<CredentialsView>,
    existing: Seq<CredentialsView>,
    written: Seq<CredentialsView>,
)
    requires
        forall|c: CredentialsView|
            #![trigger has_credentials(written, c)]
            has_credentials(written, c) <==> has_credentials(credentials, c) || has_credentials(
                existing,
                c,
            ),
        forall|i: int| 0 <= i < written.len() ==> pgpass_writable(#[trigger] written[i]),
        forall|j: int, k: int|
            0 <= j < k < written.len() ==> #[trigger] written[j].hostname != #[trigger] written[k].hostname,
    ensures
        pgpass_readable(pgpass_content(written)),
        forall|k: int|
            0 <= k < credentials.len() ==> #[trigger] pgpass_map(pgpass_content(written)).contains_key(
                credentials[k].hostname,
            ) && pgpass_map(pgpass_content(written))[credentials[k].hostname] == credentials[k],
        forall|k: int|
            0 <= k < existing.len() ==> #[trigger] pgpass_map(pgpass_content(written)).contains_key(
                existing[k].hostname,
            ) && pgpass_map(pgpass_content(written))[existing[k].hostname] == existing[k],
        forall|h: Seq<char>|
            #[trigger] pgpass_map(pgpass_content(written)).contains_key(h) ==> (exists|k: int|
                0 <= k < credentials.len() && credentials[k].hostname == h) || (exists|k: int|
                0 <= k < existing.len() && existing[k].hostname == h),
{
    assert forall|k: int| 0 <= k < credentials.len() implies has_credentials(
        written,
        #[trigger] credentials[k],
    ) by {
        assert(has_credentials(credentials, credentials[k]));
    }
    assert forall|k: int| 0 <= k < existing.len() implies has_credentials(
        written,
        #[trigger] existing[k],
    ) by {
        assert(has_credentials(existing, existing[k]));
    }
    law_pgpass_read_back_after_init(credentials, written);
    law_pgpass_read_back_after_init(existing, written);
    assert forall|h: Seq<char>| #[trigger] pgpass_map(pgpass_content(written)).contains_key(h) implies (
    exists|k: int| 0 <= k < credentials.len() && credentials[k].hostname == h) || (exists|k: int|
        0 <= k < existing.len() && existing[k].hostname == h) by {
        law_pgpass_read_after_write(written);
        lemma_credentials_map_domain(written, h);
        let j = choose|j: int| 0 <= j < written.len() && #[trigger] written[j].hostname == h;
        assert(has_credentials(written, written[j]));
        if has_credentials(credentials, written[j]) {
            let k = choose|k: int| 0 <= k < credentials.len() && credentials[k] == written[j];
            assert(credentials[k].hostname == h);
        } else {
            let k = choose|k: int| 0 <= k < existing.len() && existing[k] == written[j];
            assert(existing[k].hostname == h);
        }
    }
}

/// A second initialisation of `.pgpass` with the same credentials writes nothing: once the
/// file holds what a first one wrote (every credential asked for among them, all writable,
/// host names distinct), the credentials read back from it are not empty and hold every
/// one asked for, which is when `pgpass_credentials_to_write` gives `None`.
pub proof fn law_second_pgpass_init_writes_nothing(
    credentials: Seq<CredentialsView>,
    written: Seq<CredentialsView>,
    read_back: Seq<CredentialsView>,
)
    requires
        credentials.len() > 0,
        all_stored(written, credentials),
        forall|i: int| 0 <= i < written.len() ==> pgpass_writable(#[trigger] written[i]),
        forall|j: int, k: int|
            0 <= j < k < written.len() ==> #[trigger] written[j].hostname != #[trigger] written[k].hostname,
        represents(read_back, pgpass_map(pgpass_content(written))),
    ensures
        read_back.len() > 0,
        all_stored(read_back, credentials),
{
    law_pgpass_read_back_after_init(credentials, written);
    let m = pgpass_map(pgpass_content(written));
    assert forall|k: int| 0 <= k < credentials.len() implies has_credentials(
        read_back,
        #[trigger] credentials[k],
    ) by {
        let h = credentials[k].hostname;
        assert(m.contains_key(h));
        let j = choose|j: int| 0 <= j < read_back.len() && read_back[j].hostname == h;
        assert(m.contains_key(read_back[j].hostname));
        assert(read_back[j] == credentials[k]);
    }
    assert(m.contains_key(credentials[0].hostname));
}

/// No credentials occur twice.
pub open spec fn no_duplicates(v: Seq<CredentialsView>) -> bool {
    forall|j: int, k: int| 0 <= j < k < v.len() ==> #[trigger] v[j] != #[trigger] v[k]
}

proof fn lemma_cred_views_push(v: Seq<PostgresCredentials>, x: PostgresCredentials)
    ensures
        cred_views(v.push(x)) == cred_views(v).push(x@),
{
    assert(cred_views(v.push(x)) =~= cred_views(v).push(x@));
}

/// Pushes an argument.
fn push_arg(args: &mut Vec<String>, a: String)
    ensures
        crate::text::views(final(args)@) == crate::text::views(old(args)@).push(a@),
{
    let ghost before = args@;
    args.push(a);
    assert(crate::text::views(args@) =~= crate::text::views(before).push(a@));
}

/// Every one of `credentials` is among `stored`.
pub open spec fn all_stored(stored: Seq<CredentialsView>, credentials: Seq<CredentialsView>) -> bool {
    forall|k: int| 0 <= k < credentials.len() ==> has_credentials(stored, #[trigger] credentials[k])
}

/// What `init_pgpass` writes, given the credentials to store and those already read from
/// `.pgpass` (empty when there is no file or nothing could be read from it): `None` when
/// the file already holds every one of them; else the lines to write, which are the
/// credentials as given when the file held nothing, or else the union of both lists,
/// each credential once.
pub fn pgpass_credentials_to_write(
    credentials: &Vec<PostgresCredentials>,
    existing: &Vec<PostgresCredentials>,
) -> (r: Option<Vec<PostgresCredentials>>)
    ensures
        match r {
            None => existing.len() > 0 && all_stored(cred_views(existing@), cred_views(credentials@)),
            Some(w) => if existing.len() == 0 {
                cred_views(w@) == cred_views(credentials@)
            } else {
                &&& !all_stored(cred_views(existing@), cred_views(credentials@))
                &&& no_duplicates(cred_views(w@))
                &&& forall|c: CredentialsView|
                    #![trigger has_credentials(cred_views(w@), c)]
                    has_credentials(cred_views(w@), c) <==> has_credentials(
                        cred_views(credentials@),
                        c,
                    ) || has_credentials(cred_views(existing@), c)
            },
        },
{
    if existing.len() == 0 {
        let mut w: Vec<PostgresCredentials> = Vec::new();
        let mut i: usize = 0;
        while i < credentials.len()
            invariant
                i <= credentials.len(),
                cred_views(w@) == cred_views(credentials@).take(i as int),
            decreases credentials.len() - i,
        {
            let ghost before = w@;
            let d = credentials[i].duplicate();
            w.push(d);
            proof {
                lemma_cred_views_push(before, d);
            }
            assert(cred_views(w@) =~= cred_views(credentials@).take(i + 1));
            i = i + 1;
        }
        assert(cred_views(credentials@).take(i as int) =~= cred_views(credentials@));
        return Some(w);
    }
    let mut all_present = true;
    let mut i: usize = 0;
    while i < credentials.len()
        invariant
            i <= credentials.len(),
            all_present == all_stored(cred_views(existing@), cred_views(credentials@).take(i as int)),
        decreases credentials.len() - i,
    {
        let ghost t = cred_views(credentials@).take(i + 1);
        assert(t =~= cred_views(credentials@).take(i as int).push(credentials@[i as int]@));
        if !compare_pgpass_credentials(existing, &credentials[i]) {
            all_present = false;
            assert(!has_credentials(cred_views(existing@), t[i as int]));
        }
        i = i + 1;
    }
    assert(cred_views(credentials@).take(i as int) =~= cred_views(credentials@));
    if all_present {
        return None;
    }
    let mut w: Vec<PostgresCredentials> = Vec::new();
    assert(cred_views(w@) =~= Seq::<CredentialsView>::empty());
    add_new_credentials(&mut w, credentials);
    let ghost w1 = cred_views(w@);
    add_new_credentials(&mut w, existing);
    assert forall|c: CredentialsView| has_credentials(cred_views(w@), c) <==> has_credentials(
        cred_views(credentials@),
        c,
    ) || has_credentials(cred_views(existing@), c) by {
        assert(has_credentials(cred_views(w@), c) <==> has_credentials(w1, c) || has_credentials(
            cred_views(existing@),
            c,
        ));
        assert(!has_credentials(Seq::<CredentialsView>::empty(), c));
    }
    Some(w)
}

/// Appends to `w` each of `more` that it does not hold yet, keeping it free of duplicates.
fn add_new_credentials(w: &mut Vec<PostgresCredentials>, more: &Vec<PostgresCredentials>)
    requires
        no_duplicates(cred_views(old(w)@)),
    ensures
        no_duplicates(cred_views(final(w)@)),
        forall|c: CredentialsView|
            #![trigger has_credentials(cred_views(final(w)@), c)]
            has_credentials(cred_views(final(w)@), c) <==> has_credentials(cred_views(old(w)@), c)
                || has_credentials(cred_views(more@), c),
{
    let ghost start = cred_views(w@);
    let mut i: usize = 0;
    while i < more.len()
        invariant
            i <= more.len(),
            no_duplicates(cred_views(w@)),
            forall|c: CredentialsView|
                #![trigger has_credentials(cred_views(w@), c)]
                has_credentials(cred_views(w@), c) <==> has_credentials(start, c)
                    || has_credentials(cred_views(more@).take(i as int), c),
        decreases more.len() - i,
    {
        let ghost before = cred_views(w@);
        let ghost x = more@[i as int]@;
        assert(cred_views(more@)[i as int] == x);
        assert(cred_views(more@).take(i + 1) =~= cred_views(more@).take(i as int).push(x));
        let present = compare_pgpass_credentials(w, &more[i]);
        if !present {
            let d = more[i].duplicate();
            let ghost wv = w@;
            w.push(d);
            proof {
                lemma_cred_views_push(wv, d);
            }
            assert(cred_views(w@) =~= before.push(x));
            assert forall|a: int, b: int| 0 <= a < b < cred_views(w@).len() implies #[trigger] cred_views(w@)[a]
                != #[trigger] cred_views(w@)[b] by {
                if b == before.len() {
                    assert(cred_views(w@)[a] == before[a]);
                } else {
                    assert(before[a] != before[b]);
                }
            }
        }
        assert forall|c: CredentialsView| has_credentials(cred_views(w@), c) <==> has_credentials(
            before,
            c,
        ) || c == x by {
            if !present {
                if has_credentials(cred_views(w@), c) {
                    let k = choose|k: int| 0 <= k < cred_views(w@).len() && cred_views(w@)[k] == c;
                    if k < before.len() {
                        assert(before[k] == c);
                    }
                }
                if has_credentials(before, c) {
                    let k = choose|k: int| 0 <= k < before.len() && before[k] == c;
                    assert(cred_views(w@)[k] == c);
                }
                if c == x {
                    assert(cred_views(w@)[before.len() as int] == c);
                }
            }
        }
        let ghost prev_taken = cred_views(more@).take(i as int);
        assert forall|c: CredentialsView| has_credentials(
            cred_views(more@).take(i + 1),
            c,
        ) <==> has_credentials(cred_views(more@).take(i as int), c) || c == x by {
            let t = cred_views(more@).take(i + 1);
            if has_credentials(t, c) {
                let k = choose|k: int| 0 <= k < t.len() && t[k] == c;
                if k < i {
                    assert(cred_views(more@).take(i as int)[k] == c);
                }
            }
            if has_credentials(cred_views(more@).take(i as int), c) {
                let k = choose|k: int|
                    0 <= k < cred_views(more@).take(i as int).len() && cred_views(more@).take(
                        i as int,
                    )[k] == c;
                assert(t[k] == c);
            }
            if c == x {
                assert(t[i as int] == c);
            }
        }
        assert forall|c: CredentialsView| has_credentials(cred_views(w@), c) <==> has_credentials(
            start,
            c,
        ) || has_credentials(cred_views(more@).take(i + 1), c) by {
            assert(has_credentials(before, c) <==> has_credentials(start, c) || has_credentials(
                prev_taken,
                c,
            ));
            assert(has_credentials(cred_views(w@), c) <==> has_credentials(before, c) || c == x);
            assert(has_credentials(cred_views(more@).take(i + 1), c) <==> has_credentials(
                prev_taken,
                c,
            ) || c == x);
        }
        let ghost j: int = i + 1;
        assert(forall|c: CredentialsView| #![trigger has_credentials(cred_views(w@), c)]
            has_credentials(cred_views(w@), c) <==> has_credentials(start, c)
                || has_credentials(cred_views(more@).take(j), c));
        i = i + 1;
    }
    assert(cred_views(more@).take(more.len() as int) =~= cred_views(more@));
}

/// `--key=value`.
pub open spec fn option_arg(key: Seq<char>, value: Seq<char>) -> Seq<char> {
    "--"@ + key + "="@ + value
}

fn option_text(key: &str, value: &str) -> (r: String)
    ensures
        r@ == option_arg(key@, value@),
{
    let mut r = "--".to_owned();
    r.append(key);
    r.append("=");
    r.append(value);
    r
}

/// The connection arguments: host, user name and port.
pub open spec fn connection_args(c: CredentialsView) -> Seq<Seq<char>> {
    seq![
        option_arg("host"@, c.hostname),
        option_arg("username"@, c.superuser),
        option_arg("port"@, decimal(c.port as nat)),
    ]
}

fn push_connection_args(args: &mut Vec<String>, c: &PostgresCredentials)
    ensures
        crate::text::views(final(args)@) == crate::text::views(old(args)@) + connection_args(c@),
{
    let ghost start = crate::text::views(args@);
    push_arg(args, option_text("host", c.pg_hostname.as_str()));
    push_arg(args, option_text("username", c.pg_superuser.as_str()));
    push_arg(args, option_text("port", u64_to_decimal(c.pg_port as u64).as_str()));
    assert(crate::text::views(args@) =~= start + connection_args(c@));
}

/// Arguments of `pg_dump` for a dump of `database` in `format`, written to standard output.
pub open spec fn spec_pg_dump_args(c: CredentialsView, database: Seq<char>, format: SqlFileFormat) -> Seq<Seq<char>> {
    seq!["-v"@] + connection_args(c) + seq![
        option_arg("dbname"@, database),
        option_arg("format"@, format.spec_display()),
        "--no-owner"@,
        "--no-privileges"@,
    ]
}

/// The arguments that `db_dump` passes to `pg_dump`.
pub fn pg_dump_args(
    credentials: &PostgresCredentials,
    database_source: &str,
    dump_format: SqlFileFormat,
) -> (r: Vec<String>)
    ensures
        crate::text::views(r@) == spec_pg_dump_args(credentials@, database_source@, dump_format),
{
    let mut args: Vec<String> = Vec::new();
    assert(crate::text::views(args@) =~= Seq::<Seq<char>>::empty());
    push_arg(&mut args, "-v".to_owned());
    push_connection_args(&mut args, credentials);
    let ghost mid = crate::text::views(args@);
    push_arg(&mut args, option_text("dbname", database_source));
    push_arg(&mut args, option_text("format", dump_format.display_name()));
    push_arg(&mut args, "--no-owner".to_owned());
    push_arg(&mut args, "--no-privileges".to_owned());
    assert(crate::text::views(args@) =~= spec_pg_dump_args(credentials@, database_source@, dump_format));
    args
}

/// Arguments of `pg_restore` for a restore into `database`, the dump on standard input.
pub open spec fn spec_pg_restore_args(c: CredentialsView, database: Seq<char>) -> Seq<Seq<char>> {
    seq!["-v"@] + connection_args(c) + seq![
        option_arg("dbname"@, database),
        "--no-owner"@,
        "--no-privileges"@,
    ]
}

/// The arguments that `db_restore` passes to `pg_restore` for a custom-format dump.
pub fn pg_restore_args(credentials: &PostgresCredentials, database_target: &str) -> (r: Vec<String>)
    ensures
        crate::text::views(r@) == spec_pg_restore_args(credentials@, database_target@),
{
    let mut args: Vec<String> = Vec::new();
    assert(crate::text::views(args@) =~= Seq::<Seq<char>>::empty());
    push_arg(&mut args, "-v".to_owned());
    push_connection_args(&mut args, credentials);
    push_arg(&mut args, option_text("dbname", database_target));
    push_arg(&mut args, "--no-owner".to_owned());
    push_arg(&mut args, "--no-privileges".to_owned());
    assert(crate::text::views(args@) =~= spec_pg_restore_args(credentials@, database_target@));
    args
}

/// Arguments of `psql` to run the SQL file `dump_file` against `database`, echoing it.
pub open spec fn spec_psql_restore_args(
    c: CredentialsView,
    database: Seq<char>,
    dump_file: Seq<char>,
) -> Seq<Seq<char>> {
    seq!["-e"@] + connection_args(c) + seq![
        option_arg("dbname"@, database),
        option_arg("file"@, dump_file),
    ]
}

/// The arguments that `db_restore` passes to `psql` for a plain SQL dump.
pub fn psql_restore_args(
    credentials: &PostgresCredentials,
    database_target: &str,
    dump_file: &str,
) -> (r: Vec<String>)
    ensures
        crate::text::views(r@) == spec_psql_restore_args(credentials@, database_target@, dump_file@),
{
    let mut args: Vec<String> = Vec::new();
    assert(crate::text::views(args@) =~= Seq::<Seq<char>>::empty());
    push_arg(&mut args, "-e".to_owned());
    push_connection_args(&mut args, credentials);
    push_arg(&mut args, option_text("dbname", database_target));
    push_arg(&mut args, option_text("file", dump_file));
    assert(crate::text::views(args@) =~= spec_psql_restore_args(
        credentials@,
        database_target@,
        dump_file@,
    ));
    args
}

/// How a dump is restored: with `pg_restore` reading the dump on standard input, or
/// with `psql` running the SQL file.
#[derive(Debug, Clone, PartialEq, Eq)]
pub struct RestoreCommand {
    pub program: String,
    pub args: Vec<String>,
    pub dump_on_stdin: bool,
}

/// The program, arguments and input of a restore of `dump_file` in `format` into
/// `database_target`: `psql` for plain SQL, `pg_restore` for the custom format.
pub fn restore_command(
    credentials: &PostgresCredentials,
    database_target: &str,
    dump_file: &str,
    pg_tools: &PGTools,
    restore_format: SqlFileFormat,
) -> (r: RestoreCommand)
    ensures
        restore_format == SqlFileFormat::Sql ==> r.program@ == pg_tools.psql@ && crate::text::views(
            r.args@,
        ) == spec_psql_restore_args(credentials@, database_target@, dump_file@) && !r.dump_on_stdin,
        restore_format == SqlFileFormat::Bsql ==> r.program@ == pg_tools.pg_restore@
            && crate::text::views(r.args@) == spec_pg_restore_args(credentials@, database_target@)
            && r.dump_on_stdin,
{
    match restore_format {
        SqlFileFormat::Sql => RestoreCommand {
            program: pg_tools.psql.clone(),
            args: psql_restore_args(credentials, database_target, dump_file),
            dump_on_stdin: false,
        },
        SqlFileFormat::Bsql => RestoreCommand {
            program: pg_tools.pg_restore.clone(),
            args: pg_restore_args(credentials, database_target),
            dump_on_stdin: true,
        },
    }
}

/// The database a connection opens: the one asked for, else `postgres`.
pub fn connection_database(db: Option<String>) -> (r: String)
    ensures
        r@ == (match db {
            Some(d) => d@,
            None => "postgres"@,
        }),
{
    match db {
        Some(d) => d,
        None => "postgres".to_owned(),
    }
}


/// The fuzzy score of `item` against `query`, as nucleo-matcher computes it with
/// `Pattern::parse(query, CaseMatching::Ignore, Normalization::Smart)` and
/// `Config::DEFAULT`; `None` when the item does not match.
pub uninterp spec fn fuzzy_match_score(query: Seq<char>, item: Seq<char>) -> Option<u32>;

/// nucleo-matcher's `Pattern::score` of `item` for the pattern parsed from `query`
/// (case ignored, smart normalization, default configuration). The score itself is
/// named, not stated.
#[verifier::external_body]
fn fuzzy_score(query: &str, item: &str) -> (r: Option<u32>)
    ensures
        r == fuzzy_match_score(query@, item@),
{
    let mut matcher = Matcher::new(Config::DEFAULT);
    let mut buf = Vec::new();
    let pattern = Pattern::parse(query, CaseMatching::Ignore, Normalization::Smart);
    pattern.score(Utf32Str::new(item, &mut buf), &mut matcher)
}

/// Something listed under a name that a fuzzy query can select.
pub trait Entity: Sized {
    spec fn entity_name(&self) -> Seq<char>;

    fn entity_str(&self) -> (r: &str)
        ensures
            r@ == self.entity_name(),
    ;
}

impl Entity for UserDetails {
    open spec fn entity_name(&self) -> Seq<char> {
        self.name_view()
    }

    fn entity_str(&self) -> (r: &str) {
        self.as_ref()
    }
}

impl Entity for DatabaseDetails {
    open spec fn entity_name(&self) -> Seq<char> {
        self.name_view()
    }

    fn entity_str(&self) -> (r: &str) {
        self.as_ref()
    }
}

/// Whether an entity matches the query.
pub open spec fn is_match<T: Entity>(query: Seq<char>, t: T) -> bool {
    fuzzy_match_score(query, t.entity_name()) is Some
}

/// The score of an entity (0 when it does not match).
pub open spec fn score_of<T: Entity>(query: Seq<char>, t: T) -> u32 {
    match fuzzy_match_score(query, t.entity_name()) {
        Some(v) => v,
        None => 0,
    }
}

/// The entities that match, in their order.
pub open spec fn matching<T: Entity>(query: Seq<char>, s: Seq<T>) -> Seq<T> {
    s.filter(|t: T| is_match(query, t))
}

/// The entities whose score is `v`, in their order.
pub open spec fn with_score<T: Entity>(query: Seq<char>, s: Seq<T>, v: u32) -> Seq<T> {
    s.filter(|t: T| score_of(query, t) == v)
}

/// Scores do not decrease along the sequence.
pub open spec fn sorted_by_score<T: Entity>(query: Seq<char>, s: Seq<T>) -> bool {
    forall|i: int, j: int| 0 <= i <= j < s.len() ==> score_of(query, #[trigger] s[i]) <= score_of(
        query,
        #[trigger] s[j],
    )
}

proof fn lemma_filter_none<T>(s: Seq<T>, pred: spec_fn(T) -> bool)
    requires
        forall|i: int| 0 <= i < s.len() ==> !pred(#[trigger] s[i]),
    ensures
        s.filter(pred) == Seq::<T>::empty(),
    decreases s.len(),
{
    reveal(Seq::filter);
    if s.len() > 0 {
        lemma_filter_none(s.drop_last(), pred);
        assert(!pred(s[s.len() - 1]));
    }
}

/// Inserting at a position that keeps the scores sorted adds the entity to its score class
/// and leaves the others as they were.
proof fn lemma_insert_sorted<T: Entity>(query: Seq<char>, r: Seq<T>, p: int, x: T, w: u32)
    requires
        0 <= p <= r.len(),
        forall|k: int| 0 <= k < p ==> score_of(query, #[trigger] r[k]) <= score_of(query, x),
        forall|k: int| p <= k < r.len() ==> score_of(query, #[trigger] r[k]) > score_of(query, x),
    ensures
        with_score(query, r.insert(p, x), w) == (if score_of(query, x) == w {
            with_score(query, r, w).push(x)
        } else {
            with_score(query, r, w)
        }),
{
    let pred = |t: T| score_of(query, t) == w;
    let a = r.take(p);
    let b = r.skip(p);
    assert(r =~= a + b);
    assert(r.insert(p, x) =~= a.push(x) + b);
    Seq::filter_distributes_over_add(a, b, pred);
    Seq::filter_distributes_over_add(a.push(x), b, pred);
    a.lemma_filter_push(x, pred);
    if score_of(query, x) == w {
        assert forall|k: int| 0 <= k < b.len() implies !pred(#[trigger] b[k]) by {
            assert(b[k] == r[p + k]);
        }
        lemma_filter_none(b, pred);
        assert(a.filter(pred) + b.filter(pred) =~= a.filter(pred));
        assert(a.filter(pred).push(x) + b.filter(pred) =~= a.filter(pred).push(x));
    }
}

/// The entities that match a fuzzy query, in increasing order of score, entities with
/// equal scores in their original order.
pub fn filter_entities<T: Entity>(entities: Vec<T>, query: &str) -> (r: Vec<T>)
    ensures
        sorted_by_score(query@, r@),
        forall|v: u32|
            #![trigger with_score(query@, r@, v)]
            with_score(query@, r@, v) == with_score(query@, matching(query@, entities@), v),
        forall|i: int| 0 <= i < r.len() ==> is_match(query@, #[trigger] r@[i]),
{
    let ghost orig = entities@;
    let n = entities.len();
    let mut scores: Vec<Option<u32>> = Vec::new();
    let mut i: usize = 0;
    while i < n
        invariant
            n == entities.len(),
            i <= n,
            scores.len() == i,
            forall|k: int| 0 <= k < i ==> #[trigger] scores@[k] == fuzzy_match_score(
                query@,
                entities@[k].entity_name(),
            ),
        decreases n - i,
    {
        let sc = fuzzy_score(query, entities[i].entity_str());
        scores.push(sc);
        i = i + 1;
    }
    let mut rest = entities;
    let mut result: Vec<T> = Vec::new();
    let mut rscores: Vec<u32> = Vec::new();
    let mut i: usize = 0;
    assert(orig.take(0) =~= Seq::<T>::empty());
    assert(rest@ =~= orig.skip(0));
    proof {
        reveal(Seq::filter);
        assert(matching(query@, orig.take(0)) =~= Seq::<T>::empty());
    }
    while i < n
        invariant
            n == orig.len(),
            i <= n,
            scores.len() == n,
            forall|k: int| 0 <= k < n ==> #[trigger] scores@[k] == fuzzy_match_score(
                query@,
                orig[k].entity_name(),
            ),
            rest@ == orig.skip(i as int),
            rscores.len() == result.len(),
            forall|k: int| 0 <= k < result.len() ==> #[trigger] rscores@[k] == score_of(
                query@,
                result@[k],
            ),
            forall|k: int| 0 <= k < result.len() ==> is_match(query@, #[trigger] result@[k]),
            sorted_by_score(query@, result@),
            forall|v: u32|
                #![trigger with_score(query@, result@, v)]
                with_score(query@, result@, v) == with_score(
                    query@,
                    matching(query@, orig.take(i as int)),
                    v,
                ),
        decreases n - i,
    {
        let x = rest.remove(0);
        let ghost old_result = result@;
        assert(x == orig[i as int]);
        assert(rest@ =~= orig.skip(i + 1));
        assert(orig.take(i + 1) =~= orig.take(i as int).push(x));
        let ghost m_old = matching(query@, orig.take(i as int));
        proof {
            orig.take(i as int).lemma_filter_push(x, |t: T| is_match(query@, t));
        }
        match scores[i] {
            Some(v) => {
                assert(score_of(query@, x) == v);
                let mut p: usize = 0;
                while p < rscores.len() && rscores[p] <= v
                    invariant
                        p <= rscores.len(),
                        rscores.len() == result.len(),
                        forall|k: int| 0 <= k < result.len() ==> #[trigger] rscores@[k] == score_of(
                            query@,
                            result@[k],
                        ),
                        forall|k: int| 0 <= k < p ==> score_of(query@, #[trigger] result@[k]) <= v,
                    decreases rscores.len() - p,
                {
                    p = p + 1;
                }
                assert forall|k: int| p <= k < result.len() implies score_of(
                    query@,
                    #[trigger] result@[k],
                ) > v by {
                    assert(score_of(query@, result@[p as int]) > v);
                    assert(score_of(query@, result@[p as int]) <= score_of(query@, result@[k]));
                }
                result.insert(p, x);
                rscores.insert(p, v);
                proof {
                    assert forall|w: u32| #[trigger]
                        with_score(query@, result@, w) == with_score(
                            query@,
                            matching(query@, orig.take(i + 1)),
                            w,
                        ) by {
                        lemma_insert_sorted(query@, old_result, p as int, x, w);
                        m_old.lemma_filter_push(x, |t: T| score_of(query@, t) == w);
                        assert(with_score(query@, old_result, w) == with_score(query@, m_old, w));
                    }
                    assert forall|a: int, b: int| 0 <= a <= b < result@.len() implies score_of(
                        query@,
                        #[trigger] result@[a],
                    ) <= score_of(query@, #[trigger] result@[b]) by {
                        if a < p && b > p {
                            assert(result@[a] == old_result[a]);
                            assert(result@[b] == old_result[b - 1]);
                        } else if a < p && b < p {
                            assert(result@[a] == old_result[a]);
                            assert(result@[b] == old_result[b]);
                        } else if a > p && b > p {
                            assert(result@[a] == old_result[a - 1]);
                            assert(result@[b] == old_result[b - 1]);
                        } else if a == p && b > p {
                            assert(result@[b] == old_result[b - 1]);
                        } else if a < p && b == p {
                            assert(result@[a] == old_result[a]);
                        }
                    }
                    assert forall|k: int| 0 <= k < result.len() implies #[trigger] rscores@[k]
                        == score_of(query@, result@[k]) && is_match(query@, result@[k]) by {
                        if k < p {
                            assert(result@[k] == old_result[k]);
                        } else if k > p {
                            assert(result@[k] == old_result[k - 1]);
                        }
                    }
                }
            },
            None => {
                assert(!is_match(query@, x));
                assert(matching(query@, orig.take(i + 1)) == m_old);
            },
        }
        i = i + 1;
    }
    assert(orig.take(n as int) =~= orig);
    result
}


/// Rejects a name that may not be put in a statement, with the given message.
pub fn check_name(name: &str, message: &str) -> (r: Result<(), PGCliError>)
    ensures
        valid_pg_name(name@) ==> r is Ok,
        !valid_pg_name(name@) ==> fails_with(r, message@),
{
    if validate_pg_names(name) {
        Ok(())
    } else {
        Err(PGCliError::Other(message.to_owned()))
    }
}

/// A name that passed validation holds no quote of either kind, so it cannot end the
/// quoted identifier or string literal it is put in.
pub proof fn law_valid_name_has_no_quotes(name: Seq<char>)
    requires
        valid_pg_name(name),
    ensures
        !name.contains('"'),
        !name.contains('\''),
        !name.contains(';'),
{
    if name.contains('"') {
        let k = choose|k: int| 0 <= k < name.len() && name[k] == '"';
        assert(pg_name_char(name[k]));
    }
    if name.contains('\'') {
        let k = choose|k: int| 0 <= k < name.len() && name[k] == '\'';
        assert(pg_name_char(name[k]));
    }
    if name.contains(';') {
        let k = choose|k: int| 0 <= k < name.len() && name[k] == ';';
        assert(pg_name_char(name[k]));
    }
}

/// `"name"`: a quoted identifier.
pub open spec fn quoted(name: Seq<char>) -> Seq<char> {
    "\""@ + name + "\""@
}

/// Appends `"name"`.
pub fn push_quoted(s: &mut String, name: &str)
    ensures
        final(s)@ == old(s)@ + quoted(name@),
{
    s.append("\"");
    s.append(name);
    s.append("\"");
}

/// The `ORDER BY` clause for a listing by `column`, empty without a sorting order.
pub open spec fn order_clause(sort: Option<crate::structs::SortingOrder>, column: Seq<char>) -> Seq<
    char,
> {
    match sort {
        Some(crate::structs::SortingOrder::Ascending) => " ORDER BY "@ + column + " ASC"@,
        Some(crate::structs::SortingOrder::Descending) => " ORDER BY "@ + column + " DESC"@,
        None => Seq::<char>::empty(),
    }
}

/// Appends the `ORDER BY` clause.
pub fn push_order_clause(s: &mut String, sort: &Option<crate::structs::SortingOrder>, column: &str)
    ensures
        final(s)@ == old(s)@ + order_clause(*sort, column@),
{
    match sort {
        Some(crate::structs::SortingOrder::Ascending) => {
            s.append(" ORDER BY ");
            s.append(column);
            s.append(" ASC");
        },
        Some(crate::structs::SortingOrder::Descending) => {
            s.append(" ORDER BY ");
            s.append(column);
            s.append(" DESC");
        },
        None => {},
    }
}

/// `base` plus the affected row counts of the statements that succeeded.
pub open spec fn success_total(base: nat, results: Seq<Option<u64>>) -> nat
    decreases results.len(),
{
    if results.len() == 0 {
        base
    } else {
        success_total(base, results.drop_last()) + match results.last() {
            Some(n) => n as nat,
            None => 0nat,
        }
    }
}

/// Some statement failed.
pub open spec fn any_failed(results: Seq<Option<u64>>) -> bool {
    exists|i: int| 0 <= i < results.len() && results[i] is None
}

proof fn lemma_success_total_prefix(base: nat, results: Seq<Option<u64>>, k: int)
    requires
        0 <= k <= results.len(),
    ensures
        success_total(base, results.take(k)) <= success_total(base, results),
    decreases results.len() - k,
{
    if k == results.len() {
        assert(results.take(k) =~= results);
    } else {
        lemma_success_total_prefix(base, results, k + 1);
        assert(results.take(k + 1).drop_last() =~= results.take(k));
    }
}

/// The outcome of running several statements after one that affected `base` rows: the
/// total of affected rows, or the error `message` when any statement failed (all of
/// them having been run).
pub fn tally_statement_results(base: u64, results: &Vec<Option<u64>>, message: &str) -> (r: Result<
    u64,
    PGCliError,
>)
    requires
        success_total(base as nat, results@) <= u64::MAX,
    ensures
        any_failed(results@) ==> fails_with(r, message@),
        !any_failed(results@) ==> r == Ok::<u64, PGCliError>(
            success_total(base as nat, results@) as u64,
        ),
{
    let mut total: u64 = base;
    let mut failed = false;
    let mut i: usize = 0;
    while i < results.len()
        invariant
            i <= results.len(),
            success_total(base as nat, results@) <= u64::MAX,
            total == success_total(base as nat, results@.take(i as int)),
            failed == any_failed(results@.take(i as int)),
        decreases results.len() - i,
    {
        proof {
            assert(results@.take(i + 1).drop_last() =~= results@.take(i as int));
            assert(results@.take(i + 1).last() == results@[i as int]);
            lemma_success_total_prefix(base as nat, results@, i + 1);
        }
        let ghost t = results@.take(i + 1);
        match results[i] {
            Some(n) => {
                total = total + n;
                assert(any_failed(t) == any_failed(results@.take(i as int))) by {
                    if any_failed(t) {
                        let j = choose|j: int| 0 <= j < t.len() && t[j] is None;
                        assert(results@.take(i as int)[j] == t[j]);
                    }
                    if any_failed(results@.take(i as int)) {
                        let j = choose|j: int|
                            0 <= j < results@.take(i as int).len() && results@.take(i as int)[j] is None;
                        assert(t[j] is None);
                    }
                }
            },
            None => {
                failed = true;
                assert(t[i as int] is None);
            },
        }
        i = i + 1;
    }
    assert(results@.take(i as int) =~= results@);
    if failed {
        Err(PGCliError::Other(message.to_owned()))
    } else {
        Ok(total)
    }
}

/// A listing sorted by a column ends with `ORDER BY` that column, `ASC` for ascending and
/// `DESC` for descending order; an unsorted one has no such clause.
pub proof fn law_order_clause_direction(column: Seq<char>)
    ensures
        order_clause(None, column).len() == 0,
        starts_with(order_clause(Some(crate::structs::SortingOrder::Ascending), column), " ORDER BY "@ + column),
        starts_with(order_clause(Some(crate::structs::SortingOrder::Descending), column), " ORDER BY "@ + column),
        ends_with(order_clause(Some(crate::structs::SortingOrder::Ascending), column), " ASC"@),
        ends_with(order_clause(Some(crate::structs::SortingOrder::Descending), column), " DESC"@),
{
    let a = order_clause(Some(crate::structs::SortingOrder::Ascending), column);
    let d = order_clause(Some(crate::structs::SortingOrder::Descending), column);
    let h = " ORDER BY "@ + column;
    assert(a.subrange(0, h.len() as int) =~= h);
    assert(d.subrange(0, h.len() as int) =~= h);
    assert(a.subrange(a.len() - " ASC"@.len(), a.len() as int) =~= " ASC"@);
    assert(d.subrange(d.len() - " DESC"@.len(), d.len() as int) =~= " DESC"@);
}

/// Sorting a listing adds the order clause on the listed name column, the first column
/// the query selects, and changes nothing else: for roles `rolname`, for databases
/// `d.datname`, for extensions `extname`.
pub proof fn law_sorted_listings_extend_unsorted(sort: crate::structs::SortingOrder, extra: bool)
    ensures
        crate::db::user::spec_list_roles_query(Some(sort), extra) == crate::db::user::spec_list_roles_query(
            None,
            extra,
        ) + order_clause(Some(sort), "rolname"@),
        starts_with(crate::db::user::spec_list_roles_query(None, extra), "SELECT rolname"@),
        crate::db::database::spec_list_databases_query(Some(sort), extra)
            == crate::db::database::spec_list_databases_query(None, extra) + order_clause(Some(sort), "d.datname"@),
        starts_with(crate::db::database::spec_list_databases_query(None, extra), "SELECT d.datname"@),
        crate::db::extension::spec_list_extensions_query(Some(sort), extra)
            == crate::db::extension::spec_list_extensions_query(None, extra) + order_clause(Some(sort), "extname"@),
        starts_with(crate::db::extension::spec_list_extensions_query(None, extra), "SELECT extname"@),
{
    reveal_strlit("SELECT ");
    reveal_strlit("SELECT rolname");
    reveal_strlit("SELECT d.datname");
    reveal_strlit("SELECT extname");
    reveal_strlit("rolname");
    reveal_strlit("rolname, rolsuper, rolcreatedb, rolcanlogin, oid");
    reveal_strlit("d.datname");
    reveal_strlit("d.datname, d.oid, pg_size_pretty(pg_database_size(d.datname)), r.rolname");
    reveal_strlit("extname");
    reveal_strlit("extname, extowner, extversion, oid");
    let r = crate::db::user::spec_list_roles_query(None, extra);
    let d = crate::db::database::spec_list_databases_query(None, extra);
    let e = crate::db::extension::spec_list_extensions_query(None, extra);
    assert(crate::db::user::spec_list_roles_query(Some(sort), extra) =~= r + order_clause(Some(sort), "rolname"@));
    assert(crate::db::database::spec_list_databases_query(Some(sort), extra) =~= d + order_clause(Some(sort), "d.datname"@));
    assert(crate::db::extension::spec_list_extensions_query(Some(sort), extra) =~= e + order_clause(Some(sort), "extname"@));
    assert(r.subrange(0, "SELECT rolname"@.len() as int) =~= "SELECT rolname"@);
    assert(d.subrange(0, "SELECT d.datname"@.len() as int) =~= "SELECT d.datname"@);
    assert(e.subrange(0, "SELECT extname"@.len() as int) =~= "SELECT extname"@);
}

} // verus!
