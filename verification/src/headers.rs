//! HTTP default-header assembly.
//!
//! A header collection is built from two layers: static name/value pairs
//! from configuration, then indirected pairs whose value is read from a
//! named environment variable, so an operator can supply a secret without
//! writing it into configuration. Indirected entries are layered after the
//! static ones and so take precedence for a shared name. A malformed name
//! or value never fails the whole assembly: the entry is dropped and
//! reported, and an indirected entry whose source variable is unset or
//! blank is skipped silently.
//!
//! The collection itself is `reqwest`'s header map, kept behind trusted
//! declarations; its contents are modeled by [`header_entries`] as a map
//! from lowercased header name to value.

use crate::env_vars::EnvMap;
use vstd::prelude::*;

verus! {

/// Characters the HTTP header-name grammar accepts: the token characters
/// of `reqwest`'s validation table. Uppercase letters are accepted and
/// normalized to lowercase.
pub open spec fn is_header_name_char(c: char) -> bool {
    ||| c == '!'
    ||| c == '#'
    ||| c == '$'
    ||| c == '%'
    ||| c == '&'
    ||| c == '\''
    ||| c == '*'
    ||| c == '+'
    ||| c == '-'
    ||| c == '.'
    ||| c == '^'
    ||| c == '_'
    ||| c == '`'
    ||| c == '|'
    ||| c == '~'
    ||| '0' <= c && c <= '9'
    ||| 'a' <= c && c <= 'z'
    ||| 'A' <= c && c <= 'Z'
}

pub open spec fn lower_char(c: char) -> char {
    if 'A' <= c && c <= 'Z' {
        (((c as u8) + 32) as char)
    } else {
        c
    }
}

/// The lowercased form a header name is stored under.
pub open spec fn lower_seq(s: Seq<char>) -> Seq<char> {
    s.map_values(|c: char| lower_char(c))
}

/// A legal header name: non-empty, within the grammar's length cap, token
/// characters only.
pub open spec fn valid_header_name(s: Seq<char>) -> bool {
    &&& 1 <= s.len() <= 65535
    &&& forall|i: int| 0 <= i < s.len() ==> is_header_name_char(#[trigger] s[i])
}

/// A legal header value: no control characters other than horizontal tab.
pub open spec fn valid_header_value(s: Seq<char>) -> bool {
    forall|i: int|
        0 <= i < s.len() ==> (#[trigger] s[i] == '\t' || (s[i] as u32 >= 32 && s[i] as u32
            != 127))
}

/// The Unicode whitespace characters, as `str::trim` removes them.
pub open spec fn is_space_char(c: char) -> bool {
    ||| c == ' '
    ||| c == '\t'
    ||| c == '\n'
    ||| c == '\u{B}'
    ||| c == '\u{C}'
    ||| c == '\r'
    ||| c == '\u{85}'
    ||| c == '\u{A0}'
    ||| c == '\u{1680}'
    ||| '\u{2000}' <= c && c <= '\u{200A}'
    ||| c == '\u{2028}'
    ||| c == '\u{2029}'
    ||| c == '\u{202F}'
    ||| c == '\u{205F}'
    ||| c == '\u{3000}'
}

/// A string that trims to nothing; an indirected header with such a source
/// value is skipped.
pub open spec fn is_blank(s: Seq<char>) -> bool {
    forall|i: int| 0 <= i < s.len() ==> is_space_char(#[trigger] s[i])
}

fn is_space_char_exec(c: char) -> (r: bool)
    ensures
        r == is_space_char(c),
{
    c == ' ' || c == '\t' || c == '\n' || c == '\u{B}' || c == '\u{C}' || c == '\r' || c
        == '\u{85}' || c == '\u{A0}' || c == '\u{1680}' || ('\u{2000}' <= c && c <= '\u{200A}') || c
        == '\u{2028}' || c == '\u{2029}' || c == '\u{202F}' || c == '\u{205F}' || c == '\u{3000}'
}

/// Whether the string consists of whitespace only (an empty string does).
fn is_blank_string(s: &String) -> (r: bool)
    ensures
        r == is_blank(s@),
{
    let mut r = true;
    for c in it: s.as_str().chars()
        invariant
            it.seq() == s@,
            r == (forall|i: int| 0 <= i < it.index() ==> is_space_char(#[trigger] s@[i])),
    {
        r = r && is_space_char_exec(c);
    }
    r
}

#[verifier::external_type_specification]
#[verifier::external_body]
pub struct ExHeaderName(reqwest::header::HeaderName);

#[verifier::external_type_specification]
#[verifier::external_body]
pub struct ExHeaderValue(reqwest::header::HeaderValue);

#[verifier::external_type_specification]
#[verifier::external_body]
#[verifier::reject_recursive_types(T)]
pub struct ExHeaderMap<T>(reqwest::header::HeaderMap<T>);

#[verifier::external_type_specification]
#[verifier::external_body]
pub struct ExClientBuilder(reqwest::ClientBuilder);

/// The contents of a header map: lowercased header name to its value (the
/// last of them, where the underlying map holds several for one name; a
/// map built here always holds one).
pub uninterp spec fn header_entries(m: reqwest::header::HeaderMap) -> Map<Seq<char>, Seq<char>>;

/// The default headers an HTTP client builder has stored so far, read the
/// same way as [`header_entries`].
pub uninterp spec fn builder_headers(b: reqwest::ClientBuilder) -> Map<Seq<char>, Seq<char>>;

/// The (lowercased) characters of a validated header name.
pub uninterp spec fn header_name_chars(name: reqwest::header::HeaderName) -> Seq<char>;

/// The characters of a validated header value.
pub uninterp spec fn header_value_chars(value: reqwest::header::HeaderValue) -> Seq<char>;

/// Relies on `reqwest::header::HeaderName::from_bytes`: it accepts exactly
/// the non-empty strings of token characters up to the grammar's length
/// cap, and normalizes the name to lowercase.
#[verifier::external_body]
fn parse_header_name(name: &String) -> (r: Option<reqwest::header::HeaderName>)
    ensures
        r is Some <==> valid_header_name(name@),
        r is Some ==> header_name_chars(r->Some_0) == lower_seq(name@),
{
    reqwest::header::HeaderName::from_bytes(name.as_bytes()).ok()
}

/// Relies on `reqwest::header::HeaderValue::from_str`: it accepts exactly
/// the strings free of control characters other than tab, and keeps the
/// characters unchanged.
#[verifier::external_body]
fn parse_header_value(value: &String) -> (r: Option<reqwest::header::HeaderValue>)
    ensures
        r is Some <==> valid_header_value(value@),
        r is Some ==> header_value_chars(r->Some_0) == value@,
{
    reqwest::header::HeaderValue::from_str(value.as_str()).ok()
}

/// The contents of a collection that holds nothing.
pub open spec fn no_entries() -> Map<Seq<char>, Seq<char>> {
    Map::empty()
}

/// Relies on `reqwest::header::HeaderMap::new`: the new map is empty.
#[verifier::external_body]
fn new_header_map() -> (r: reqwest::header::HeaderMap)
    ensures
        header_entries(r) == no_entries(),
{
    reqwest::header::HeaderMap::new()
}

/// Relies on `reqwest::header::HeaderMap::insert`: it binds the name to
/// the single given value, replacing any values the name had. The map
/// aborts when a growth step would pass its hard capacity of 32768 slots;
/// under 4096 names every growth path (the 3/4 load factor and the
/// collision-triggered doubling) stays within that cap, so that case is
/// excluded here.
#[verifier::external_body]
fn header_map_insert(
    m: &mut reqwest::header::HeaderMap,
    name: reqwest::header::HeaderName,
    value: reqwest::header::HeaderValue,
)
    requires
        header_entries(*old(m)).dom().finite(),
        header_entries(*old(m)).dom().len() < 4096,
    ensures
        header_entries(*final(m)) == header_entries(*old(m)).insert(
            header_name_chars(name),
            header_value_chars(value),
        ),
{
    m.insert(name, value);
}

/// Relies on `reqwest::header::HeaderMap::is_empty`: true exactly when the
/// map holds no entries.
#[verifier::external_body]
fn header_map_is_empty(m: &reqwest::header::HeaderMap) -> (r: bool)
    ensures
        r <==> header_entries(*m).dom() =~= Set::empty(),
{
    m.is_empty()
}

/// Relies on `reqwest::ClientBuilder::default_headers`: it inserts each
/// entry of the given collection into the builder's existing default
/// headers (it does not replace them), so an entry of the collection wins
/// over one the builder already had for the same name. Each of those
/// inserts aborts past the header map's hard capacity, exactly as in
/// [`header_map_insert`]; a bound on the combined number of distinct
/// names keeps every one of them within it.
#[verifier::external_body]
fn builder_with_default_headers(
    builder: reqwest::ClientBuilder,
    default_headers: &reqwest::header::HeaderMap,
) -> (r: reqwest::ClientBuilder)
    requires
        builder_headers(builder).dom().finite(),
        header_entries(*default_headers).dom().finite(),
        builder_headers(builder).dom().len() + header_entries(*default_headers).dom().len()
            < 4096,
    ensures
        builder_headers(r) == builder_headers(builder).union_prefer_right(
            header_entries(*default_headers),
        ),
{
    builder.default_headers(default_headers.clone())
}

/// One static entry applied to the collection: inserted under the
/// lowercased name when the name and the value are legal, dropped
/// otherwise.
pub open spec fn header_step(
    m: Map<Seq<char>, Seq<char>>,
    name: Seq<char>,
    value: Seq<char>,
) -> Map<Seq<char>, Seq<char>> {
    if valid_header_name(name) && valid_header_value(value) {
        m.insert(lower_seq(name), value)
    } else {
        m
    }
}

/// The collection after the static entries, applied in order on top of `m`.
pub open spec fn static_headers_after(
    entries: Seq<(Seq<char>, Seq<char>)>,
    m: Map<Seq<char>, Seq<char>>,
) -> Map<Seq<char>, Seq<char>>
    decreases entries.len(),
{
    if entries.len() == 0 {
        m
    } else {
        header_step(
            static_headers_after(entries.drop_last(), m),
            entries.last().0,
            entries.last().1,
        )
    }
}

/// Whether an indirected entry `(name, var)` contributes at all: its
/// source variable is set to a non-blank value.
pub open spec fn env_entry_applies(
    entry: (Seq<char>, Seq<char>),
    reader: Map<Seq<char>, Seq<char>>,
) -> bool {
    reader.contains_key(entry.1) && !is_blank(reader[entry.1])
}

/// One indirected entry applied to the collection: skipped when its source
/// variable is unset or blank, otherwise treated as a static entry whose
/// value is the variable's value.
pub open spec fn env_header_step(
    m: Map<Seq<char>, Seq<char>>,
    reader: Map<Seq<char>, Seq<char>>,
    entry: (Seq<char>, Seq<char>),
) -> Map<Seq<char>, Seq<char>> {
    if env_entry_applies(entry, reader) {
        header_step(m, entry.0, reader[entry.1])
    } else {
        m
    }
}

/// The collection after the indirected entries, applied in order on top of
/// `m`.
pub open spec fn env_headers_after(
    entries: Seq<(Seq<char>, Seq<char>)>,
    reader: Map<Seq<char>, Seq<char>>,
    m: Map<Seq<char>, Seq<char>>,
) -> Map<Seq<char>, Seq<char>>
    decreases entries.len(),
{
    if entries.len() == 0 {
        m
    } else {
        env_header_step(env_headers_after(entries.drop_last(), reader, m), reader, entries.last())
    }
}

/// Whether a static entry is dropped with a warning.
pub open spec fn static_entry_warned(entry: (Seq<char>, Seq<char>)) -> bool {
    !(valid_header_name(entry.0) && valid_header_value(entry.1))
}

/// The names of the static entries dropped with a warning, in order.
pub open spec fn static_warned(entries: Seq<(Seq<char>, Seq<char>)>) -> Seq<Seq<char>>
    decreases entries.len(),
{
    if entries.len() == 0 {
        Seq::empty()
    } else {
        static_warned(entries.drop_last()) + (if static_entry_warned(entries.last()) {
            seq![entries.last().0]
        } else {
            Seq::empty()
        })
    }
}

/// Whether an indirected entry is dropped with a warning: its source
/// variable is set and non-blank, yet the name or the read value is
/// illegal. An unset or blank source is a silent skip, not a warning.
pub open spec fn env_entry_warned(
    entry: (Seq<char>, Seq<char>),
    reader: Map<Seq<char>, Seq<char>>,
) -> bool {
    env_entry_applies(entry, reader) && !(valid_header_name(entry.0) && valid_header_value(
        reader[entry.1],
    ))
}

/// The names of the indirected entries dropped with a warning, in order.
pub open spec fn env_warned(
    entries: Seq<(Seq<char>, Seq<char>)>,
    reader: Map<Seq<char>, Seq<char>>,
) -> Seq<Seq<char>>
    decreases entries.len(),
{
    if entries.len() == 0 {
        Seq::empty()
    } else {
        env_warned(entries.drop_last(), reader) + (if env_entry_warned(entries.last(), reader) {
            seq![entries.last().0]
        } else {
            Seq::empty()
        })
    }
}

/// The pairs a caller-supplied optional list denotes.
pub open spec fn entry_views(entries: Option<Vec<(String, String)>>) -> Seq<
    (Seq<char>, Seq<char>),
> {
    match entries {
        Some(v) => v@.map_values(|p: (String, String)| (p.0@, p.1@)),
        None => Seq::empty(),
    }
}

pub open spec fn opt_entries_len(entries: Option<Vec<(String, String)>>) -> nat {
    entry_views(entries).len()
}

/// Builds the HTTP default headers: the static entries first, then the
/// indirected entries read from the `reader` snapshot of the environment,
/// each entry validated and dropped (not failing the assembly) when
/// malformed. The second result lists the names of the dropped entries, in
/// order, for the caller to report.
pub fn build_default_headers(
    http_headers: Option<Vec<(String, String)>>,
    env_http_headers: Option<Vec<(String, String)>>,
    reader: &EnvMap,
) -> (r: (reqwest::header::HeaderMap, Vec<String>))
    requires
        opt_entries_len(http_headers) + opt_entries_len(env_http_headers) < 4096,
    ensures
        header_entries(r.0) == env_headers_after(
            entry_views(env_http_headers),
            reader@,
            static_headers_after(entry_views(http_headers), Map::empty()),
        ),
        header_entries(r.0).dom().finite(),
        header_entries(r.0).dom().len() <= opt_entries_len(http_headers) + opt_entries_len(
            env_http_headers,
        ),
        r.1@.map_values(|s: String| s@) == static_warned(entry_views(http_headers)) + env_warned(
            entry_views(env_http_headers),
            reader@,
        ),
{
    let ghost svs = entry_views(http_headers);
    let ghost evs = entry_views(env_http_headers);
    let mut headers = new_header_map();
    let mut warnings: Vec<String> = Vec::new();

    if let Some(static_headers) = http_headers {
        let mut i: usize = 0;
        while i < static_headers.len()
            invariant
                i <= static_headers.len(),
                svs == static_headers@.map_values(|p: (String, String)| (p.0@, p.1@)),
                svs.len() + opt_entries_len(env_http_headers) < 4096,
                header_entries(headers) == static_headers_after(svs.take(i as int), Map::empty()),
                header_entries(headers).dom().finite(),
                header_entries(headers).dom().len() <= i,
                warnings@.map_values(|s: String| s@) == static_warned(svs.take(i as int)),
            decreases static_headers.len() - i,
        {
            assert(svs.take(i + 1).drop_last() =~= svs.take(i as int));
            assert(svs[i as int] == (static_headers@[i as int].0@, static_headers@[i as int].1@));
            assert(svs.take(i + 1).last() == svs[i as int]);
            let name = &static_headers[i].0;
            let value = &static_headers[i].1;
            match parse_header_name(name) {
                Some(header_name) => {
                    match parse_header_value(value) {
                        Some(header_value) => {
                            header_map_insert(&mut headers, header_name, header_value);
                        },
                        None => {
                            warnings.push(name.clone());
                        },
                    }
                },
                None => {
                    warnings.push(name.clone());
                },
            }
            assert(warnings@.map_values(|s: String| s@) =~= static_warned(svs.take(i + 1)));
            i = i + 1;
        }
        assert(svs.take(static_headers@.len() as int) =~= svs);
    }
    assert(header_entries(headers) == static_headers_after(svs, Map::empty()));
    let ghost static_built = header_entries(headers);
    let ghost static_warnings = warnings@.map_values(|s: String| s@);

    if let Some(env_headers) = env_http_headers {
        let mut j: usize = 0;
        while j < env_headers.len()
            invariant
                j <= env_headers.len(),
                evs == env_headers@.map_values(|p: (String, String)| (p.0@, p.1@)),
                svs.len() + evs.len() < 4096,
                header_entries(headers) == env_headers_after(
                    evs.take(j as int),
                    reader@,
                    static_built,
                ),
                static_built.dom().finite(),
                static_built.dom().len() <= svs.len(),
                header_entries(headers).dom().finite(),
                header_entries(headers).dom().len() <= svs.len() + j,
                warnings@.map_values(|s: String| s@) == static_warnings + env_warned(
                    evs.take(j as int),
                    reader@,
                ),
            decreases env_headers.len() - j,
        {
            assert(evs.take(j + 1).drop_last() =~= evs.take(j as int));
            assert(evs[j as int] == (env_headers@[j as int].0@, env_headers@[j as int].1@));
            assert(evs.take(j + 1).last() == evs[j as int]);
            let name = &env_headers[j].0;
            let env_var = &env_headers[j].1;
            match reader.get(env_var) {
                Some(read_value) => {
                    if !is_blank_string(read_value) {
                        assert(env_entry_applies(evs[j as int], reader@));
                        let value = read_value.clone();
                        match (parse_header_name(name), parse_header_value(&value)) {
                            (Some(header_name), Some(header_value)) => {
                                assert(!env_entry_warned(evs[j as int], reader@));
                                header_map_insert(&mut headers, header_name, header_value);
                            },
                            _ => {
                                assert(env_entry_warned(evs[j as int], reader@));
                                let ghost w0 = warnings@;
                                warnings.push(name.clone());
                                assert(warnings@ == w0.push(env_headers@[j as int].0));
                                assert(w0.map_values(|s: String| s@) == static_warnings
                                    + env_warned(evs.take(j as int), reader@));
                                assert(warnings@.map_values(|s: String| s@) =~= w0.map_values(
                                    |s: String| s@,
                                ) + seq![evs[j as int].0]);
                            },
                        }
                    } else {
                        assert(!env_entry_warned(evs[j as int], reader@));
                    }
                },
                None => {
                    assert(!env_entry_applies(evs[j as int], reader@));
                },
            }
            assert(env_warned(evs.take(j + 1), reader@) == env_warned(evs.take(j as int), reader@)
                + (if env_entry_warned(evs[j as int], reader@) {
                seq![evs[j as int].0]
            } else {
                Seq::<Seq<char>>::empty()
            }));
            assert(warnings@.map_values(|s: String| s@) =~~= static_warnings + env_warned(
                evs.take(j + 1),
                reader@,
            ));
            j = j + 1;
        }
        assert(evs.take(env_headers@.len() as int) =~= evs);
    }
    assert(header_entries(headers) == env_headers_after(evs, reader@, static_built));

    (headers, warnings)
}

/// Applying the static entries of `x + y` is applying those of `x`, then
/// those of `y`.
pub proof fn lemma_static_fold_append(
    x: Seq<(Seq<char>, Seq<char>)>,
    y: Seq<(Seq<char>, Seq<char>)>,
    m: Map<Seq<char>, Seq<char>>,
)
    ensures
        static_headers_after(x + y, m) == static_headers_after(y, static_headers_after(x, m)),
    decreases y.len(),
{
    if y.len() == 0 {
        assert(x + y =~= x);
    } else {
        lemma_static_fold_append(x, y.drop_last(), m);
        assert((x + y).drop_last() =~= x + y.drop_last());
        assert((x + y).last() == y.last());
    }
}

/// Applying the indirected entries of `x + y` is applying those of `x`,
/// then those of `y`.
pub proof fn lemma_env_fold_append(
    x: Seq<(Seq<char>, Seq<char>)>,
    y: Seq<(Seq<char>, Seq<char>)>,
    reader: Map<Seq<char>, Seq<char>>,
    m: Map<Seq<char>, Seq<char>>,
)
    ensures
        env_headers_after(x + y, reader, m) == env_headers_after(
            y,
            reader,
            env_headers_after(x, reader, m),
        ),
    decreases y.len(),
{
    if y.len() == 0 {
        assert(x + y =~= x);
    } else {
        lemma_env_fold_append(x, y.drop_last(), reader, m);
        assert((x + y).drop_last() =~= x + y.drop_last());
        assert((x + y).last() == y.last());
    }
}

/// Two entries with distinct (lowercased) names commute.
pub proof fn lemma_header_step_commutes(
    m: Map<Seq<char>, Seq<char>>,
    a: (Seq<char>, Seq<char>),
    b: (Seq<char>, Seq<char>),
)
    requires
        lower_seq(a.0) != lower_seq(b.0),
    ensures
        header_step(header_step(m, a.0, a.1), b.0, b.1) == header_step(
            header_step(m, b.0, b.1),
            a.0,
            a.1,
        ),
{
    assert(header_step(header_step(m, a.0, a.1), b.0, b.1) =~= header_step(
        header_step(m, b.0, b.1),
        a.0,
        a.1,
    ));
}

/// Header assembly is order-independent across distinct names: swapping
/// two adjacent static entries whose lowercased names differ leaves the
/// collection unchanged.
pub proof fn lemma_static_order_independent(
    prefix: Seq<(Seq<char>, Seq<char>)>,
    a: (Seq<char>, Seq<char>),
    b: (Seq<char>, Seq<char>),
    suffix: Seq<(Seq<char>, Seq<char>)>,
    m: Map<Seq<char>, Seq<char>>,
)
    requires
        lower_seq(a.0) != lower_seq(b.0),
    ensures
        static_headers_after(prefix + seq![a, b] + suffix, m) == static_headers_after(
            prefix + seq![b, a] + suffix,
            m,
        ),
{
    let base = static_headers_after(prefix, m);
    lemma_static_fold_append(prefix + seq![a, b], suffix, m);
    lemma_static_fold_append(prefix, seq![a, b], m);
    lemma_static_fold_append(prefix + seq![b, a], suffix, m);
    lemma_static_fold_append(prefix, seq![b, a], m);
    assert(seq![a, b].drop_last() =~= seq![a]);
    assert(seq![b, a].drop_last() =~= seq![b]);
    assert(seq![a].drop_last() =~= Seq::<(Seq<char>, Seq<char>)>::empty());
    assert(seq![b].drop_last() =~= Seq::<(Seq<char>, Seq<char>)>::empty());
    assert(static_headers_after(Seq::<(Seq<char>, Seq<char>)>::empty(), base) == base);
    assert(static_headers_after(seq![a], base) == header_step(base, a.0, a.1));
    assert(static_headers_after(seq![b], base) == header_step(base, b.0, b.1));
    assert(static_headers_after(seq![a, b], base) == header_step(
        header_step(base, a.0, a.1),
        b.0,
        b.1,
    ));
    assert(static_headers_after(seq![b, a], base) == header_step(
        header_step(base, b.0, b.1),
        a.0,
        a.1,
    ));
    lemma_header_step_commutes(base, a, b);
}

/// Two indirected entries with distinct (lowercased) names commute,
/// whatever the reader answers for their source variables.
pub proof fn lemma_env_step_commutes(
    m: Map<Seq<char>, Seq<char>>,
    reader: Map<Seq<char>, Seq<char>>,
    a: (Seq<char>, Seq<char>),
    b: (Seq<char>, Seq<char>),
)
    requires
        lower_seq(a.0) != lower_seq(b.0),
    ensures
        env_header_step(env_header_step(m, reader, a), reader, b) == env_header_step(
            env_header_step(m, reader, b),
            reader,
            a,
        ),
{
    assert(env_header_step(env_header_step(m, reader, a), reader, b) =~= env_header_step(
        env_header_step(m, reader, b),
        reader,
        a,
    ));
}

/// Order independence holds in the indirected layer too: swapping two
/// adjacent indirected entries whose lowercased names differ leaves the
/// collection unchanged.
pub proof fn lemma_env_order_independent(
    prefix: Seq<(Seq<char>, Seq<char>)>,
    a: (Seq<char>, Seq<char>),
    b: (Seq<char>, Seq<char>),
    suffix: Seq<(Seq<char>, Seq<char>)>,
    reader: Map<Seq<char>, Seq<char>>,
    m: Map<Seq<char>, Seq<char>>,
)
    requires
        lower_seq(a.0) != lower_seq(b.0),
    ensures
        env_headers_after(prefix + seq![a, b] + suffix, reader, m) == env_headers_after(
            prefix + seq![b, a] + suffix,
            reader,
            m,
        ),
{
    let base = env_headers_after(prefix, reader, m);
    lemma_env_fold_append(prefix + seq![a, b], suffix, reader, m);
    lemma_env_fold_append(prefix, seq![a, b], reader, m);
    lemma_env_fold_append(prefix + seq![b, a], suffix, reader, m);
    lemma_env_fold_append(prefix, seq![b, a], reader, m);
    assert(seq![a, b].drop_last() =~= seq![a]);
    assert(seq![b, a].drop_last() =~= seq![b]);
    assert(seq![a].drop_last() =~= Seq::<(Seq<char>, Seq<char>)>::empty());
    assert(seq![b].drop_last() =~= Seq::<(Seq<char>, Seq<char>)>::empty());
    assert(env_headers_after(Seq::<(Seq<char>, Seq<char>)>::empty(), reader, base) == base);
    assert(env_headers_after(seq![a], reader, base) == env_header_step(base, reader, a));
    assert(env_headers_after(seq![b], reader, base) == env_header_step(base, reader, b));
    assert(env_headers_after(seq![a, b], reader, base) == env_header_step(
        env_header_step(base, reader, a),
        reader,
        b,
    ));
    assert(env_headers_after(seq![b, a], reader, base) == env_header_step(
        env_header_step(base, reader, b),
        reader,
        a,
    ));
    lemma_env_step_commutes(base, reader, a, b);
}

/// The value the last legal static entry for the (lowercased) name `k`
/// carries, if any.
pub open spec fn last_static_value(entries: Seq<(Seq<char>, Seq<char>)>, k: Seq<char>) -> Option<
    Seq<char>,
>
    decreases entries.len(),
{
    if entries.len() == 0 {
        None
    } else if valid_header_name(entries.last().0) && valid_header_value(entries.last().1)
        && lower_seq(entries.last().0) == k {
        Some(entries.last().1)
    } else {
        last_static_value(entries.drop_last(), k)
    }
}

/// Last write wins within the static layer: under the name `k` the
/// collection holds the value of the last legal entry named `k`, and falls
/// back to the base collection when there is none.
pub proof fn lemma_static_last_write_wins(
    entries: Seq<(Seq<char>, Seq<char>)>,
    m: Map<Seq<char>, Seq<char>>,
    k: Seq<char>,
)
    ensures
        static_headers_after(entries, m).contains_key(k) <==> (last_static_value(entries, k)
            is Some || m.contains_key(k)),
        last_static_value(entries, k) is Some ==> static_headers_after(entries, m)[k]
            == last_static_value(entries, k)->Some_0,
        last_static_value(entries, k) is None && m.contains_key(k) ==> static_headers_after(
            entries,
            m,
        )[k] == m[k],
    decreases entries.len(),
{
    if entries.len() > 0 {
        lemma_static_last_write_wins(entries.drop_last(), m, k);
    }
}

/// The value the last contributing indirected entry for the (lowercased)
/// name `k` carries, if any: its source variable is set and non-blank, and
/// both the name and the read value are legal.
pub open spec fn last_env_value(
    entries: Seq<(Seq<char>, Seq<char>)>,
    reader: Map<Seq<char>, Seq<char>>,
    k: Seq<char>,
) -> Option<Seq<char>>
    decreases entries.len(),
{
    if entries.len() == 0 {
        None
    } else if env_entry_applies(entries.last(), reader) && valid_header_name(entries.last().0)
        && valid_header_value(reader[entries.last().1]) && lower_seq(entries.last().0) == k {
        Some(reader[entries.last().1])
    } else {
        last_env_value(entries.drop_last(), reader, k)
    }
}

/// Last write wins within the indirected layer, and the layer falls back
/// to the collection built before it for names it does not contribute.
pub proof fn lemma_env_last_write_wins(
    entries: Seq<(Seq<char>, Seq<char>)>,
    reader: Map<Seq<char>, Seq<char>>,
    m: Map<Seq<char>, Seq<char>>,
    k: Seq<char>,
)
    ensures
        env_headers_after(entries, reader, m).contains_key(k) <==> (last_env_value(
            entries,
            reader,
            k,
        ) is Some || m.contains_key(k)),
        last_env_value(entries, reader, k) is Some ==> env_headers_after(entries, reader, m)[k]
            == last_env_value(entries, reader, k)->Some_0,
        last_env_value(entries, reader, k) is None && m.contains_key(k) ==> env_headers_after(
            entries,
            reader,
            m,
        )[k] == m[k],
    decreases entries.len(),
{
    if entries.len() > 0 {
        lemma_env_last_write_wins(entries.drop_last(), reader, m, k);
    }
}

/// Indirected headers take precedence over static ones sharing a name:
/// whenever the indirected layer contributes a value for the name `k`,
/// that value is what the assembled collection holds under `k`, whatever
/// the static layer put there.
pub proof fn lemma_indirected_precedence(
    static_entries: Seq<(Seq<char>, Seq<char>)>,
    env_entries: Seq<(Seq<char>, Seq<char>)>,
    reader: Map<Seq<char>, Seq<char>>,
    k: Seq<char>,
)
    requires
        last_env_value(env_entries, reader, k) is Some,
    ensures
        env_headers_after(
            env_entries,
            reader,
            static_headers_after(static_entries, no_entries()),
        ).contains_key(k),
        env_headers_after(env_entries, reader, static_headers_after(static_entries, no_entries()))[
            k
        ] == last_env_value(env_entries, reader, k)->Some_0,
{
    lemma_env_last_write_wins(
        env_entries,
        reader,
        static_headers_after(static_entries, no_entries()),
        k,
    );
}

/// An indirected entry whose source variable is unset, or set to a blank
/// string, never appears: removing it from the entry list leaves the
/// assembled collection unchanged.
pub proof fn lemma_unset_or_blank_entry_dropped(
    prefix: Seq<(Seq<char>, Seq<char>)>,
    entry: (Seq<char>, Seq<char>),
    suffix: Seq<(Seq<char>, Seq<char>)>,
    reader: Map<Seq<char>, Seq<char>>,
    m: Map<Seq<char>, Seq<char>>,
)
    requires
        !env_entry_applies(entry, reader),
    ensures
        env_headers_after(prefix + seq![entry] + suffix, reader, m) == env_headers_after(
            prefix + suffix,
            reader,
            m,
        ),
{
    lemma_env_fold_append(prefix + seq![entry], suffix, reader, m);
    lemma_env_fold_append(prefix, seq![entry], reader, m);
    lemma_env_fold_append(prefix, suffix, reader, m);
    let base = env_headers_after(prefix, reader, m);
    assert(seq![entry].drop_last() =~= Seq::<(Seq<char>, Seq<char>)>::empty());
    assert(env_headers_after(Seq::<(Seq<char>, Seq<char>)>::empty(), reader, base) == base);
    assert(env_headers_after(seq![entry], reader, base) == base);
}

/// Attaches the assembled headers to an HTTP client builder: an empty
/// collection leaves the builder untouched; otherwise the collection's
/// entries are inserted into the builder's stored default headers,
/// winning over any the builder already had for the same names. When
/// anything is attached, the combined number of distinct names must stay
/// under the header map's abort-free capacity; [`build_default_headers`]
/// bounds its collection's names for that purpose.
pub fn apply_default_headers(
    builder: reqwest::ClientBuilder,
    default_headers: &reqwest::header::HeaderMap,
) -> (r: reqwest::ClientBuilder)
    requires
        !(header_entries(*default_headers).dom() =~= Set::empty()) ==> builder_headers(
            builder,
        ).dom().finite() && header_entries(*default_headers).dom().finite() && builder_headers(
            builder,
        ).dom().len() + header_entries(*default_headers).dom().len() < 4096,
    ensures
        header_entries(*default_headers).dom() =~= Set::empty() ==> r == builder,
        builder_headers(r) =~= builder_headers(builder).union_prefer_right(
            header_entries(*default_headers),
        ),
{
    if header_map_is_empty(default_headers) {
        builder
    } else {
        builder_with_default_headers(builder, default_headers)
    }
}

} // verus!
