use vstd::prelude::*;
use vstd::string::*;

verus! {

/// Where the access token for the model hub comes from.
#[derive(Debug, Clone)]
pub enum TokenSource {
    /// The token itself.
    Literal(String),
    /// The name of an environment variable holding it.
    EnvVar(String),
    /// A file holding it.
    Path(String),
    /// The hub's own cached token.
    CacheToken,
    /// No token.
    NoToken,
}

/// `i` is the position of the first `:` of `s`.
pub open spec fn is_first_colon(s: Seq<char>, i: int) -> bool {
    &&& 0 <= i < s.len()
    &&& s[i] == ':'
    &&& forall|j: int| 0 <= j < i ==> s[j] != ':'
}

/// Whether `s` holds a `:`.
pub open spec fn has_colon(s: Seq<char>) -> bool {
    exists|i: int| 0 <= i < s.len() && s[i] == ':'
}

/// What comes before the first `:` (all of `s` where there is none).
pub open spec fn head(s: Seq<char>) -> Seq<char> {
    if has_colon(s) {
        let i = choose|i: int| is_first_colon(s, i);
        s.subrange(0, i)
    } else {
        s
    }
}

/// What comes after the first `:`, if there is one.
pub open spec fn tail(s: Seq<char>) -> Option<Seq<char>> {
    if has_colon(s) {
        let i = choose|i: int| is_first_colon(s, i);
        Some(s.subrange(i + 1, s.len() as int))
    } else {
        None
    }
}

/// The environment variable read when `env` names none.
pub open spec fn default_token_var() -> Seq<char> {
    "HUGGING_FACE_HUB_TOKEN"@
}

/// Whether `s` names a token source: `literal:<token>`, `env[:<variable>]`,
/// `path:<file>`, `cache` or `none`.
pub open spec fn names_source(s: Seq<char>) -> bool {
    ||| head(s) == "literal"@ && tail(s) is Some
    ||| head(s) == "env"@
    ||| head(s) == "path"@ && tail(s) is Some
    ||| head(s) == "cache"@
    ||| head(s) == "none"@
}

/// `t` is the source that `s` names.
pub open spec fn parsed_as(s: Seq<char>, t: TokenSource) -> bool {
    match t {
        TokenSource::Literal(v) => head(s) == "literal"@ && tail(s) == Some(v@),
        TokenSource::EnvVar(v) => head(s) == "env"@ && v@ == match tail(s) {
            Some(x) => x,
            None => default_token_var(),
        },
        TokenSource::Path(v) => head(s) == "path"@ && tail(s) == Some(v@),
        TokenSource::CacheToken => head(s) == "cache"@,
        TokenSource::NoToken => head(s) == "none"@,
    }
}

/// The message of a text that names no token source.
pub open spec fn parse_error_text(s: Seq<char>) -> Seq<char> {
    if head(s) == "literal"@ {
        "Expected a value for 'literal'"@
    } else if head(s) == "path"@ {
        "Expected a value for 'path'"@
    } else {
        "Invalid token source format"@
    }
}

/// The text of a token source, as `parse` reads it.
pub open spec fn source_text(t: TokenSource) -> Seq<char> {
    match t {
        TokenSource::Literal(v) => "literal:"@ + v@,
        TokenSource::EnvVar(v) => "env:"@ + v@,
        TokenSource::Path(v) => "path:"@ + v@,
        TokenSource::CacheToken => "cache"@,
        TokenSource::NoToken => "none"@,
    }
}

/// Whether two strings hold the same characters.
pub fn str_eq(a: &str, b: &str) -> (r: bool)
    ensures
        r == (a@ == b@),
{
    let n = a.unicode_len();
    if n != b.unicode_len() {
        return false;
    }
    let mut i: usize = 0;
    while i < n
        invariant
            i <= n,
            n == a@.len(),
            n == b@.len(),
            forall|j: int| 0 <= j < i ==> a@[j] == b@[j],
        decreases n - i,
    {
        if a.get_char(i) != b.get_char(i) {
            return false;
        }
        i += 1;
    }
    assert(a@ =~= b@);
    true
}

/// The position of the first `:` of `s`, if any.
fn find_colon(s: &str) -> (r: Option<usize>)
    ensures
        r matches Some(i) ==> is_first_colon(s@, i as int),
        r is None ==> !has_colon(s@),
{
    let n = s.unicode_len();
    let mut i: usize = 0;
    while i < n
        invariant
            i <= n,
            n == s@.len(),
            forall|j: int| 0 <= j < i ==> s@[j] != ':',
        decreases n - i,
    {
        if s.get_char(i) == ':' {
            return Some(i);
        }
        i += 1;
    }
    None
}

/// The first `:` of a string is unique.
proof fn lemma_first_colon_unique(s: Seq<char>, i: int)
    requires
        is_first_colon(s, i),
    ensures
        has_colon(s),
        head(s) == s.subrange(0, i),
        tail(s) == Some(s.subrange(i + 1, s.len() as int)),
{
    let k = choose|k: int| is_first_colon(s, k);
    assert(is_first_colon(s, k));
    if k < i {
        assert(s[k] != ':');
    }
    if i < k {
        assert(s[i] != ':');
    }
}

impl TokenSource {
    /// Reads a token source from its text: `literal:<token>`, `env` or
    /// `env:<variable>`, `path:<file>`, `cache` or `none`. Only the first `:`
    /// separates; the rest belongs to the value.
    pub fn parse(s: &str) -> (r: Result<TokenSource, String>)
        ensures
            r is Ok <==> names_source(s@),
            r matches Ok(t) ==> parsed_as(s@, t),
            r matches Err(m) ==> m@ == parse_error_text(s@),
    {
        proof {
            reveal_strlit("literal");
            reveal_strlit("env");
            reveal_strlit("path");
            reveal_strlit("cache");
            reveal_strlit("none");
        }
        let colon = find_colon(s);
        let n = s.unicode_len();
        let (name, value): (&str, Option<&str>) = match colon {
            Some(i) => {
                proof {
                    lemma_first_colon_unique(s@, i as int);
                }
                (s.substring_char(0, i), Some(s.substring_char(i + 1, n)))
            },
            None => {
                assert(s@.subrange(0, n as int) =~= s@);
                (s.substring_char(0, n), None)
            },
        };
        assert(name@ == head(s@));
        assert(value matches Some(v) ==> tail(s@) == Some(v@));
        assert(value is None ==> tail(s@) is None);
        if str_eq(name, "literal") {
            match value {
                Some(v) => Ok(TokenSource::Literal(v.to_owned())),
                None => {
                    assert(!names_source(s@));
                    Err(String::from_str("Expected a value for 'literal'"))
                },
            }
        } else if str_eq(name, "env") {
            match value {
                Some(v) => Ok(TokenSource::EnvVar(v.to_owned())),
                None => Ok(TokenSource::EnvVar(String::from_str("HUGGING_FACE_HUB_TOKEN"))),
            }
        } else if str_eq(name, "path") {
            match value {
                Some(v) => Ok(TokenSource::Path(v.to_owned())),
                None => {
                    assert(head(s@) == "path"@);
                    assert("path"@[0] != "none"@[0]);
                    assert(!names_source(s@));
                    Err(String::from_str("Expected a value for 'path'"))
                },
            }
        } else if str_eq(name, "cache") {
            Ok(TokenSource::CacheToken)
        } else if str_eq(name, "none") {
            Ok(TokenSource::NoToken)
        } else {
            assert(!names_source(s@));
            Err(String::from_str("Invalid token source format"))
        }
    }

    /// The text of the source: `literal:<token>`, `env:<variable>`, `path:<file>`,
    /// `cache` or `none`.
    pub fn to_string(&self) -> (r: String)
        ensures
            r@ == source_text(*self),
    {
        match self {
            TokenSource::Literal(v) => {
                let mut r = String::from_str("literal:");
                r.append(v.as_str());
                r
            },
            TokenSource::EnvVar(v) => {
                let mut r = String::from_str("env:");
                r.append(v.as_str());
                r
            },
            TokenSource::Path(v) => {
                let mut r = String::from_str("path:");
                r.append(v.as_str());
                r
            },
            TokenSource::CacheToken => String::from_str("cache"),
            TokenSource::NoToken => String::from_str("none"),
        }
    }
}

} // verus!
