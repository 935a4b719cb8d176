//! Digest authentication: reading a challenge and answering it (RFC 2617).
use super::md5::{md5_hex, md5_text};
use super::message::{clone_opt, opt_text};
use crate::case::{ascii_lower_text, ascii_lowered, lower, lower_chars};
use crate::number::{hex_bytes, hex_of_bytes};
use crate::random::random_bytes;
use crate::text::{
    chars_of, contains_text, cut, has_text, same_text, split_once, string_of, strip_prefix,
    stripped, trim, trim_matches, trimmed, without_prefix,
};
use vstd::prelude::*;

verus! {

/// How the digest is computed.
#[derive(Debug, Clone, Copy, PartialEq, Eq, Structural)]
pub enum DigestAlgorithm {
    Md5,
    Md5Sess,
}

impl DigestAlgorithm {
    /// The algorithm as it is written in a message.
    pub open spec fn text(self) -> Seq<char> {
        match self {
            DigestAlgorithm::Md5 => "MD5"@,
            DigestAlgorithm::Md5Sess => "MD5-sess"@,
        }
    }

    /// The algorithm as it is written in a message.
    pub fn to_string(&self) -> (r: String)
        ensures
            r@ == self.text(),
    {
        match self {
            DigestAlgorithm::Md5 => "MD5".to_owned(),
            DigestAlgorithm::Md5Sess => "MD5-sess".to_owned(),
        }
    }
}

/// The challenge of a WWW-Authenticate or Proxy-Authenticate field.
#[derive(Debug)]
pub struct DigestChallenge {
    pub realm: String,
    pub nonce: String,
    pub opaque: Option<String>,
    pub algorithm: DigestAlgorithm,
    pub qop: Option<String>,
    pub stale: bool,
}

/// What a challenge says, as far as it has been read.
pub struct ChallengeFields {
    pub realm: Option<Seq<char>>,
    pub nonce: Option<Seq<char>>,
    pub opaque: Option<Seq<char>>,
    pub algorithm: DigestAlgorithm,
    pub qop: Option<Seq<char>>,
    pub stale: bool,
}

impl View for DigestChallenge {
    type V = ChallengeFields;

    open spec fn view(&self) -> ChallengeFields {
        ChallengeFields {
            realm: Some(self.realm@),
            nonce: Some(self.nonce@),
            opaque: opt_text(self.opaque),
            algorithm: self.algorithm,
            qop: opt_text(self.qop),
            stale: self.stale,
        }
    }
}

impl Clone for DigestChallenge {
    fn clone(&self) -> (r: Self)
        ensures
            r@ == self@,
    {
        DigestChallenge {
            realm: self.realm.clone(),
            nonce: self.nonce.clone(),
            opaque: clone_opt(&self.opaque),
            algorithm: self.algorithm,
            qop: clone_opt(&self.qop),
            stale: self.stale,
        }
    }
}

/// Who authenticates.
#[derive(Debug)]
pub struct Credentials {
    pub username: String,
    pub password: String,
}

impl Clone for Credentials {
    fn clone(&self) -> (r: Self)
        ensures
            r.username@ == self.username@,
            r.password@ == self.password@,
    {
        Credentials { username: self.username.clone(), password: self.password.clone() }
    }
}

/// The answer to a challenge.
#[derive(Debug)]
pub struct DigestResponse {
    pub username: String,
    pub realm: String,
    pub nonce: String,
    pub uri: String,
    pub response: String,
    pub algorithm: DigestAlgorithm,
    pub opaque: Option<String>,
    pub qop: Option<String>,
    pub nc: Option<String>,
    pub cnonce: Option<String>,
}

/// What a `DigestResponse` holds.
pub struct AnswerFields {
    pub username: Seq<char>,
    pub realm: Seq<char>,
    pub nonce: Seq<char>,
    pub uri: Seq<char>,
    pub response: Seq<char>,
    pub algorithm: DigestAlgorithm,
    pub opaque: Option<Seq<char>>,
    pub qop: Option<Seq<char>>,
    pub nc: Option<Seq<char>>,
    pub cnonce: Option<Seq<char>>,
}

impl View for DigestResponse {
    type V = AnswerFields;

    open spec fn view(&self) -> AnswerFields {
        AnswerFields {
            username: self.username@,
            realm: self.realm@,
            nonce: self.nonce@,
            uri: self.uri@,
            response: self.response@,
            algorithm: self.algorithm,
            opaque: opt_text(self.opaque),
            qop: opt_text(self.qop),
            nc: opt_text(self.nc),
            cnonce: opt_text(self.cnonce),
        }
    }
}

/// The value between the two texts, where there is a value.
pub open spec fn optional_part(before: Seq<char>, v: Option<Seq<char>>, after: Seq<char>) -> Seq<
    char,
> {
    match v {
        Some(t) => before + t + after,
        None => seq![],
    }
}

/// An answer as it is written in an Authorization field.
pub open spec fn answer_text(a: AnswerFields) -> Seq<char> {
    let base = "Digest username=\""@ + a.username + "\", realm=\""@ + a.realm + "\", nonce=\""@
        + a.nonce + "\", uri=\""@ + a.uri + "\", response=\""@ + a.response + "\", algorithm="@
        + a.algorithm.text();
    let opaque = optional_part(", opaque=\""@, a.opaque, "\""@);
    let qop = optional_part(", qop="@, a.qop, ""@);
    let nc = optional_part(", nc="@, a.nc, ""@);
    let cnonce = optional_part(", cnonce=\""@, a.cnonce, "\""@);
    if a.qop is Some {
        base + opaque + qop + nc + cnonce
    } else {
        base + opaque
    }
}

fn push_optional(s: &mut String, before: &str, v: &Option<String>, after: &str)
    ensures
        final(s)@ == old(s)@ + optional_part(before@, opt_text(*v), after@),
{
    match v {
        Some(t) => {
            s.append(before);
            s.append(t.as_str());
            s.append(after);
            assert(s@ =~= old(s)@ + (before@ + t@ + after@));
        },
        None => {
            assert(s@ =~= old(s)@ + seq![]);
        },
    }
}

impl DigestResponse {
    /// The answer as it is written in an Authorization field.
    pub fn to_string(&self) -> (r: String)
        ensures
            r@ == answer_text(self@),
    {
        let mut s = "Digest username=\"".to_owned();
        s.append(self.username.as_str());
        s.append("\", realm=\"");
        s.append(self.realm.as_str());
        s.append("\", nonce=\"");
        s.append(self.nonce.as_str());
        s.append("\", uri=\"");
        s.append(self.uri.as_str());
        s.append("\", response=\"");
        s.append(self.response.as_str());
        s.append("\", algorithm=");
        let alg = self.algorithm.to_string();
        s.append(alg.as_str());
        push_optional(&mut s, ", opaque=\"", &self.opaque, "\"");
        if self.qop.is_some() {
            push_optional(&mut s, ", qop=", &self.qop, "");
            push_optional(&mut s, ", nc=", &self.nc, "");
            push_optional(&mut s, ", cnonce=\"", &self.cnonce, "\"");
        }
        s
    }
}

// ---------------------------------------------------------------------------
// Reading a challenge
// ---------------------------------------------------------------------------

/// The position of the first comma outside double quotes, or the length of
/// `s`; `quoted` says whether `s` begins inside quotes.
pub open spec fn next_comma(s: Seq<char>, quoted: bool) -> int
    decreases s.len(),
{
    if s.len() == 0 {
        0
    } else if s[0] == ',' && !quoted {
        0
    } else {
        1 + next_comma(s.skip(1), if s[0] == '"' { !quoted } else { quoted })
    }
}

/// The parameters of `s`: the pieces between the commas outside double quotes;
/// an empty piece at the end does not count.
pub open spec fn params(s: Seq<char>) -> Seq<Seq<char>>
    decreases s.len(),
{
    if s.len() == 0 {
        seq![]
    } else {
        let k = next_comma(s, false);
        if 0 <= k < s.len() {
            seq![s.take(k)] + params(s.skip(k + 1))
        } else {
            seq![s]
        }
    }
}

/// The characters of each piece.
pub open spec fn str_texts(v: Seq<&str>) -> Seq<Seq<char>> {
    Seq::new(v.len(), |i: int| v[i]@)
}

/// Splits parameters at the commas outside double quotes.
pub fn split_params<'a>(s: &'a str) -> (r: Vec<&'a str>)
    ensures
        str_texts(r@) == params(s@),
{
    let cs = chars_of(s);
    let n: usize = cs.len();
    let mut out: Vec<&'a str> = Vec::new();
    let mut start: usize = 0;
    let mut quoted = false;
    let mut i: usize = 0;
    let ghost rest = s@;
    assert(s@.skip(0) =~= s@);
    assert(s@.subrange(0, n as int) =~= s@);
    assert(str_texts(out@) + params(rest) =~= params(s@));
    while i < n
        invariant
            n == cs@.len(),
            cs@ == s@,
            start <= i <= n,
            rest == s@.skip(start as int),
            str_texts(out@) + params(rest) == params(s@),
            next_comma(rest, false) == (i - start) + next_comma(s@.skip(i as int), quoted),
        decreases n - i,
    {
        let c = cs[i];
        proof {
            assert(s@.skip(i as int)[0] == c);
            assert(s@.skip(i as int).skip(1) =~= s@.skip(i + 1));
        }
        if c == '"' {
            quoted = !quoted;
        } else if c == ',' && !quoted {
            let p = s.substring_char(start, i);
            let ghost before = str_texts(out@);
            out.push(p);
            proof {
                let k = i - start;
                assert(rest.take(k) =~= p@);
                assert(rest.skip(k + 1) =~= s@.skip(i + 1));
                assert(str_texts(out@) =~= before.push(p@));
                assert(str_texts(out@) + params(s@.skip(i + 1)) =~= before + (seq![p@] + params(
                    s@.skip(i + 1),
                )));
                rest = s@.skip(i + 1);
            }
            start = i + 1;
        }
        i = i + 1;
    }
    assert(s@.skip(n as int).len() == 0);
    if start < n {
        let p = s.substring_char(start, n);
        let ghost before = str_texts(out@);
        out.push(p);
        assert(p@ =~= rest);
        assert(str_texts(out@) =~= before + seq![rest]);
    } else {
        assert(str_texts(out@) =~= params(s@));
    }
    out
}

/// What a challenge says once one more parameter has been read.
pub open spec fn read_param(f: ChallengeFields, p: Seq<char>) -> ChallengeFields {
    match cut(trimmed(p), '=') {
        None => f,
        Some((k, v)) => {
            let key = lower(trimmed(k));
            let val = stripped(trimmed(v), '"');
            if key == "realm"@ {
                ChallengeFields { realm: Some(val), ..f }
            } else if key == "nonce"@ {
                ChallengeFields { nonce: Some(val), ..f }
            } else if key == "opaque"@ {
                ChallengeFields { opaque: Some(val), ..f }
            } else if key == "algorithm"@ {
                ChallengeFields {
                    algorithm: if lower(val) == "md5-sess"@ {
                        DigestAlgorithm::Md5Sess
                    } else {
                        DigestAlgorithm::Md5
                    },
                    ..f
                }
            } else if key == "qop"@ {
                ChallengeFields { qop: Some(val), ..f }
            } else if key == "stale"@ {
                ChallengeFields { stale: ascii_lowered(val) == "true"@, ..f }
            } else {
                f
            }
        },
    }
}

/// What the parameters `ps` of a challenge say.
pub open spec fn read_params(ps: Seq<Seq<char>>) -> ChallengeFields
    decreases ps.len(),
{
    if ps.len() == 0 {
        ChallengeFields {
            realm: None,
            nonce: None,
            opaque: None,
            algorithm: DigestAlgorithm::Md5,
            qop: None,
            stale: false,
        }
    } else {
        read_param(read_params(ps.drop_last()), ps.last())
    }
}

/// The parameters of a Digest challenge.
pub open spec fn challenge_params(value: Seq<char>) -> Option<Seq<char>> {
    match without_prefix(value, "Digest "@) {
        Some(t) => Some(t),
        None => without_prefix(value, "digest "@),
    }
}

/// The challenge that a field value holds: a Digest challenge with a realm and
/// a nonce.
pub open spec fn challenge_of(value: Seq<char>) -> Option<ChallengeFields> {
    match challenge_params(value) {
        None => None,
        Some(t) => {
            let f = read_params(params(t));
            if f.realm is Some && f.nonce is Some {
                Some(f)
            } else {
                None
            }
        },
    }
}

/// Reads the challenge of a WWW-Authenticate or Proxy-Authenticate field.
pub fn parse_challenge(header_value: &str) -> (r: Option<DigestChallenge>)
    ensures
        match r {
            Some(c) => challenge_of(header_value@) == Some(c@),
            None => challenge_of(header_value@) is None,
        },
{
    let cs = chars_of(header_value);
    let value = match strip_prefix(cs.as_slice(), "Digest ") {
        Some(t) => t,
        None => match strip_prefix(cs.as_slice(), "digest ") {
            Some(t) => t,
            None => {
                return None;
            },
        },
    };
    let mut realm: Option<String> = None;
    let mut nonce: Option<String> = None;
    let mut opaque: Option<String> = None;
    let mut algorithm = DigestAlgorithm::Md5;
    let mut qop: Option<String> = None;
    let mut stale = false;
    let text = string_of(value);
    let ps = split_params(text.as_str());
    let n: usize = ps.len();
    let ghost all = params(value@);
    let mut i: usize = 0;
    while i < n
        invariant
            n == ps@.len(),
            all == str_texts(ps@),
            i <= n,
            read_params(all.take(i as int)) == (ChallengeFields {
                realm: opt_text(realm),
                nonce: opt_text(nonce),
                opaque: opt_text(opaque),
                algorithm,
                qop: opt_text(qop),
                stale,
            }),
        decreases n - i,
    {
        proof {
            assert(all.take(i + 1).drop_last() =~= all.take(i as int));
            assert(all.take(i + 1).last() == ps@[i as int]@);
        }
        let p = chars_of(ps[i]);
        if let Some((k, v)) = split_once(trim(p.as_slice()), '=') {
            let key = lower_chars(trim(k));
            let key = key.as_str();
            let val = trim_matches(trim(v), '"');
            if same_text(key, "realm") {
                realm = Some(string_of(val));
            } else if same_text(key, "nonce") {
                nonce = Some(string_of(val));
            } else if same_text(key, "opaque") {
                opaque = Some(string_of(val));
            } else if same_text(key, "algorithm") {
                let low = lower_chars(val);
                algorithm = if same_text(low.as_str(), "md5-sess") {
                    DigestAlgorithm::Md5Sess
                } else {
                    DigestAlgorithm::Md5
                };
            } else if same_text(key, "qop") {
                qop = Some(string_of(val));
            } else if same_text(key, "stale") {
                let s = string_of(val);
                let low = ascii_lower_text(s.as_str());
                stale = same_text(low.as_str(), "true");
            }
        }
        i = i + 1;
    }
    assert(all.take(n as int) =~= all);
    match (realm, nonce) {
        (Some(realm), Some(nonce)) => Some(
            DigestChallenge { realm, nonce, opaque, algorithm, qop, stale },
        ),
        _ => None,
    }
}

// ---------------------------------------------------------------------------
// Answering a challenge
// ---------------------------------------------------------------------------

/// The digest of the user's name, realm and password.
pub open spec fn ha1(username: Seq<char>, realm: Seq<char>, password: Seq<char>) -> Seq<char> {
    md5_text(username + ":"@ + realm + ":"@ + password)
}

/// The digest of the method and the URI.
pub open spec fn ha2(method: Seq<char>, uri: Seq<char>) -> Seq<char> {
    md5_text(method + ":"@ + uri)
}

/// Whether a challenge asks for the quality of protection `auth`.
pub open spec fn wants_auth(c: ChallengeFields) -> bool {
    match c.qop {
        Some(q) => contains_text(q, "auth"@),
        None => false,
    }
}

/// The answer to a challenge, with the client nonce `cnonce` where the
/// challenge asks for `auth`.
pub open spec fn answer(
    c: ChallengeFields,
    username: Seq<char>,
    password: Seq<char>,
    method: Seq<char>,
    uri: Seq<char>,
    cnonce: Seq<char>,
) -> AnswerFields {
    let realm = c.realm->0;
    let nonce = c.nonce->0;
    let h1 = ha1(username, realm, password);
    let h2 = ha2(method, uri);
    let auth = wants_auth(c);
    AnswerFields {
        username,
        realm,
        nonce,
        uri,
        response: if auth {
            md5_text(h1 + ":"@ + nonce + ":"@ + "00000001"@ + ":"@ + cnonce + ":auth:"@ + h2)
        } else {
            md5_text(h1 + ":"@ + nonce + ":"@ + h2)
        },
        algorithm: c.algorithm,
        opaque: c.opaque,
        qop: if auth {
            Some("auth"@)
        } else {
            None
        },
        nc: if auth {
            Some("00000001"@)
        } else {
            None
        },
        cnonce: if auth {
            Some(cnonce)
        } else {
            None
        },
    }
}

/// The answer to a challenge, with the client nonce `cnonce`.
pub fn compute_digest_with(
    challenge: &DigestChallenge,
    creds: &Credentials,
    method: &str,
    uri: &str,
    cnonce: &str,
) -> (r: DigestResponse)
    ensures
        r@ == answer(challenge@, creds.username@, creds.password@, method@, uri@, cnonce@),
{
    let mut a1 = creds.username.clone();
    a1.append(":");
    a1.append(challenge.realm.as_str());
    a1.append(":");
    a1.append(creds.password.as_str());
    let h1 = md5_hex(a1.as_str());
    let mut a2 = method.to_owned();
    a2.append(":");
    a2.append(uri);
    let h2 = md5_hex(a2.as_str());
    let auth = match &challenge.qop {
        Some(q) => {
            let qc = chars_of(q.as_str());
            has_text(qc.as_slice(), "auth")
        },
        None => false,
    };
    let mut text = h1;
    text.append(":");
    text.append(challenge.nonce.as_str());
    text.append(":");
    if auth {
        text.append("00000001");
        text.append(":");
        text.append(cnonce);
        text.append(":auth:");
    }
    text.append(h2.as_str());
    let response = md5_hex(text.as_str());
    DigestResponse {
        username: creds.username.clone(),
        realm: challenge.realm.clone(),
        nonce: challenge.nonce.clone(),
        uri: uri.to_owned(),
        response,
        algorithm: challenge.algorithm,
        opaque: clone_opt(&challenge.opaque),
        qop: if auth {
            Some("auth".to_owned())
        } else {
            None
        },
        nc: if auth {
            Some("00000001".to_owned())
        } else {
            None
        },
        cnonce: if auth {
            Some(cnonce.to_owned())
        } else {
            None
        },
    }
}

/// The answer to a challenge, with a random client nonce.
pub fn compute_digest(
    challenge: &DigestChallenge,
    creds: &Credentials,
    method: &str,
    uri: &str,
) -> (r: DigestResponse)
    ensures
        exists|bytes: Seq<u8>|
            bytes.len() == 8 && r@ == answer(
                challenge@,
                creds.username@,
                creds.password@,
                method@,
                uri@,
                #[trigger] hex_bytes(bytes),
            ),
{
    let bytes = random_bytes();
    let cnonce = hex_of_bytes(bytes.as_slice());
    assert(bytes@.len() == 8);
    compute_digest_with(challenge, creds, method, uri, cnonce.as_str())
}

/// Without `auth` the answer does not depend on the client nonce.
pub proof fn law_answer_without_auth(
    c: ChallengeFields,
    username: Seq<char>,
    password: Seq<char>,
    method: Seq<char>,
    uri: Seq<char>,
    n1: Seq<char>,
    n2: Seq<char>,
)
    requires
        !wants_auth(c),
    ensures
        answer(c, username, password, method, uri, n1) == answer(
            c,
            username,
            password,
            method,
            uri,
            n2,
        ),
        answer(c, username, password, method, uri, n1).response == md5_text(
            ha1(username, c.realm->0, password) + ":"@ + c.nonce->0 + ":"@ + ha2(method, uri),
        ),
{
}

/// The response of an answer is thirty-two digits long.
pub proof fn law_response_len(
    c: ChallengeFields,
    username: Seq<char>,
    password: Seq<char>,
    method: Seq<char>,
    uri: Seq<char>,
    cnonce: Seq<char>,
)
    ensures
        answer(c, username, password, method, uri, cnonce).response.len() == 32,
{
    let h1 = ha1(username, c.realm->0, password);
    let h2 = ha2(method, uri);
    super::md5::law_md5_len(
        h1 + ":"@ + c.nonce->0 + ":"@ + "00000001"@ + ":"@ + cnonce + ":auth:"@ + h2,
    );
    super::md5::law_md5_len(h1 + ":"@ + c.nonce->0 + ":"@ + h2);
}

} // verus!
