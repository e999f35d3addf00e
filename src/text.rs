use vstd::prelude::*;
use vstd::string::StrSliceExecFns;

verus! {

/// What `str::to_uppercase` makes of a text.
pub uninterp spec fn upper_of(s: Seq<char>) -> Seq<char>;

/// What `str::to_lowercase` makes of a text.
pub uninterp spec fn lower_of(s: Seq<char>) -> Seq<char>;

/// Relies on std's `str::to_uppercase`: the result depends on the characters
/// alone.
#[verifier::external_body]
pub(crate) fn uppercase(s: &str) -> (r: String)
    ensures
        r@ == upper_of(s@),
{
    s.to_uppercase()
}

/// Relies on std's `str::to_lowercase`: the result depends on the characters
/// alone.
#[verifier::external_body]
pub(crate) fn lowercase(s: &str) -> (r: String)
    ensures
        r@ == lower_of(s@),
{
    s.to_lowercase()
}

/// Relies on std's `String::push_str`: appends `t` to `s`.
#[verifier::external_body]
fn push_str(s: &mut String, t: &str)
    ensures
        final(s)@ == old(s)@ + t@,
{
    s.push_str(t)
}

/// Number of leading characters of a symbol kept in a share token's name.
pub const TOKEN_SYMBOL_MAX_LENGTH: usize = 4;

/// The first `TOKEN_SYMBOL_MAX_LENGTH` characters of `s` (all of a shorter
/// one).
pub open spec fn short_symbol(s: Seq<char>) -> Seq<char> {
    if s.len() <= TOKEN_SYMBOL_MAX_LENGTH {
        s
    } else {
        s.take(TOKEN_SYMBOL_MAX_LENGTH as int)
    }
}

/// The name of a pool's share token: the short symbols of both assets and
/// `LP`, joined by dashes, in upper case.
pub open spec fn lp_token_name(a: Seq<char>, b: Seq<char>) -> Seq<char> {
    upper_of(short_symbol(a) + "-"@ + short_symbol(b) + "-LP"@)
}

fn append_short_symbol(name: &mut String, symbol: &str)
    ensures
        final(name)@ == old(name)@ + short_symbol(symbol@),
{
    let len = symbol.unicode_len();
    let end = if len <= TOKEN_SYMBOL_MAX_LENGTH {
        len
    } else {
        TOKEN_SYMBOL_MAX_LENGTH
    };
    let part = symbol.substring_char(0, end);
    assert(len <= TOKEN_SYMBOL_MAX_LENGTH ==> symbol@.subrange(0, end as int) =~= symbol@);
    push_str(name, part);
}

/// The name of the share token of a pool whose assets have the symbols
/// `symbols` (a native coin's symbol is its denomination).
pub fn format_lp_token_name(symbols: &[String; 2]) -> (r: String)
    ensures
        r@ == lp_token_name(symbols@[0]@, symbols@[1]@),
{
    let mut name = String::new();
    append_short_symbol(&mut name, symbols[0].as_str());
    push_str(&mut name, "-");
    append_short_symbol(&mut name, symbols[1].as_str());
    push_str(&mut name, "-LP");
    proof {
        reveal_strlit("-");
        reveal_strlit("-LP");
    }
    assert(name@ =~= short_symbol(symbols@[0]@) + "-"@ + short_symbol(symbols@[1]@) + "-LP"@);
    uppercase(name.as_str())
}

} // verus!
