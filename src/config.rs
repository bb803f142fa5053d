use vstd::prelude::*;
use vstd::string::*;
use crate::resolve::{lower_of, lowercase, texts};

verus! {

/// Whether `c` has the Unicode White_Space property.
pub open spec fn is_white(c: char) -> bool {
    let u = c as u32;
    ||| 0x09 <= u <= 0x0D
    ||| u == 0x20
    ||| u == 0x85
    ||| u == 0xA0
    ||| u == 0x1680
    ||| 0x2000 <= u <= 0x200A
    ||| u == 0x2028
    ||| u == 0x2029
    ||| u == 0x202F
    ||| u == 0x205F
    ||| u == 0x3000
}

/// `s` without its leading whitespace.
pub open spec fn trim_start(s: Seq<char>) -> Seq<char>
    decreases s.len(),
{
    if s.len() > 0 && is_white(s[0]) {
        trim_start(s.drop_first())
    } else {
        s
    }
}

/// `s` without its trailing whitespace.
pub open spec fn trim_end(s: Seq<char>) -> Seq<char>
    decreases s.len(),
{
    if s.len() > 0 && is_white(s.last()) {
        trim_end(s.drop_last())
    } else {
        s
    }
}

/// `s` without its leading and trailing whitespace.
pub open spec fn trim_text(s: Seq<char>) -> Seq<char> {
    trim_end(trim_start(s))
}

/// Relies on `str::trim`: `s` without the leading and trailing characters
/// that have the Unicode White_Space property.
#[verifier::external_body]
fn trimmed(s: &str) -> (r: String)
    ensures
        r@ == trim_text(s@),
{
    s.trim().to_string()
}

/// The pieces of `s` between commas, in order; `s` without a comma is one
/// piece.
pub open spec fn comma_pieces(s: Seq<char>) -> Seq<Seq<char>>
    decreases s.len(),
{
    if s.len() == 0 {
        seq![Seq::empty()]
    } else {
        let rest = comma_pieces(s.drop_last());
        if s.last() == ',' {
            rest.push(Seq::empty())
        } else {
            rest.update(rest.len() - 1, rest.last().push(s.last()))
        }
    }
}

/// One configured admin email: trimmed and lowercased.
pub open spec fn normal_email(p: Seq<char>) -> Seq<char> {
    lower_of(trim_text(p))
}

/// The normalized pieces that are not empty.
pub open spec fn normal_emails(ps: Seq<Seq<char>>) -> Seq<Seq<char>> {
    ps.map_values(|p: Seq<char>| normal_email(p)).filter(|e: Seq<char>| e.len() > 0)
}

/// The admin set that the comma-separated list `raw` configures.
pub open spec fn admin_list(raw: Seq<char>) -> Seq<Seq<char>> {
    normal_emails(comma_pieces(raw))
}

proof fn lemma_comma_pieces_nonempty(s: Seq<char>)
    ensures
        comma_pieces(s).len() >= 1,
    decreases s.len(),
{
    if s.len() > 0 {
        lemma_comma_pieces_nonempty(s.drop_last());
    }
}

proof fn lemma_normal_emails_push(ps: Seq<Seq<char>>, p: Seq<char>)
    ensures
        normal_emails(ps.push(p)) == if normal_email(p).len() > 0 {
            normal_emails(ps).push(normal_email(p))
        } else {
            normal_emails(ps)
        },
{
    let f = |q: Seq<char>| normal_email(q);
    assert(ps.push(p).map_values(f) == ps.map_values(f).push(normal_email(p)));
    assert(ps.map_values(f).push(normal_email(p)).drop_last() == ps.map_values(f));
    reveal(Seq::filter);
}

/// The admin set configured by `raw`: split on commas, each piece trimmed
/// and lowercased, empty ones left out.
pub fn parse_admin_emails(raw: &str) -> (r: Vec<String>)
    ensures
        texts(r@) == admin_list(raw@),
        forall|k: int| 0 <= k < r@.len() ==> #[trigger] r@[k]@.len() > 0,
        raw@.len() == 0 ==> r@.len() == 0,
{
    let n = raw.unicode_len();
    let mut r: Vec<String> = Vec::new();
    let mut start: usize = 0;
    let mut i: usize = 0;
    let ghost mut done: Seq<Seq<char>> = Seq::empty();
    proof {
        assert(raw@.subrange(0, 0) == Seq::<char>::empty());
        assert(done.push(Seq::<char>::empty()) == seq![Seq::<char>::empty()]);
        assert(normal_emails(done) == Seq::<Seq<char>>::empty()) by {
            reveal(Seq::filter);
        }
    }
    while i < n
        invariant
            n == raw@.len(),
            start <= i <= n,
            comma_pieces(raw@.subrange(0, i as int)) == done.push(raw@.subrange(start as int, i as int)),
            texts(r@) == normal_emails(done),
            forall|k: int| 0 <= k < r@.len() ==> #[trigger] r@[k]@.len() > 0,
            i == 0 ==> r@.len() == 0,
        decreases n - i,
    {
        let c = raw.get_char(i);
        proof {
            let s1 = raw@.subrange(0, i + 1);
            assert(s1.drop_last() == raw@.subrange(0, i as int));
            assert(s1.last() == c);
            lemma_comma_pieces_nonempty(raw@.subrange(0, i as int));
        }
        if c == ',' {
            let piece = raw.substring_char(start, i);
            let e = lowercase(trimmed(piece).as_str());
            proof {
                lemma_normal_emails_push(done, piece@);
                done = done.push(piece@);
            }
            if e.unicode_len() > 0 {
                r.push(e);
                assert(texts(r@) == texts(r@).drop_last().push(e@));
            }
            start = i + 1;
            i = i + 1;
            assert(raw@.subrange(start as int, i as int) == Seq::<char>::empty());
        } else {
            assert(raw@.subrange(start as int, i + 1) == raw@.subrange(start as int, i as int).push(c));
            i = i + 1;
        }
    }
    let piece = raw.substring_char(start, n);
    let e = lowercase(trimmed(piece).as_str());
    proof {
        lemma_normal_emails_push(done, piece@);
        assert(raw@.subrange(0, n as int) == raw@);
    }
    if e.unicode_len() > 0 {
        r.push(e);
        assert(texts(r@) == texts(r@).drop_last().push(e@));
    }
    r
}

/// Runtime settings of the service.
pub struct Config {
    pub app_url: String,
    pub database_url: String,
    pub oidc_issuer: String,
    pub oidc_client_id: String,
    pub oidc_client_secret: String,
    pub admin_emails: Vec<String>,
}

impl Config {
    /// Settings from their raw values; `admin_emails` is the raw
    /// comma-separated list.
    pub fn from_values(
        app_url: String,
        database_url: String,
        oidc_issuer: String,
        oidc_client_id: String,
        oidc_client_secret: String,
        admin_emails: &str,
    ) -> (r: Config)
        ensures
            r.app_url == app_url,
            r.database_url == database_url,
            r.oidc_issuer == oidc_issuer,
            r.oidc_client_id == oidc_client_id,
            r.oidc_client_secret == oidc_client_secret,
            texts(r.admin_emails@) == admin_list(admin_emails@),
            admin_emails@.len() == 0 ==> r.admin_emails@.len() == 0,
    {
        Config {
            app_url,
            database_url,
            oidc_issuer,
            oidc_client_id,
            oidc_client_secret,
            admin_emails: parse_admin_emails(admin_emails),
        }
    }
}

} // verus!
