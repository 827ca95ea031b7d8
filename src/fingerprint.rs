use vstd::prelude::*;

use crate::capture::SENTINEL;
use crate::text::join;

verus! {

/// Shortest secret for which a colour cue is derived.
pub const MIN_CUE_LEN: usize = 7;

/// Glyph painted once per colour.
pub open spec fn glyph() -> Seq<char> {
    seq!['~', '~']
}

/// What `colorhash256::hash_as_ansi` returns for the given bytes.
pub uninterp spec fn ansi_hash(bytes: Seq<u8>) -> Seq<u16>;

/// The decimal digits of `n`.
pub open spec fn decimal(n: nat) -> Seq<char>
    decreases n,
{
    if n < 10 {
        seq![(n + 48) as char]
    } else {
        decimal(n / 10).push(((n % 10) + 48) as char)
    }
}

/// The escape code that selects colour `c` of the 256-colour palette for the text.
pub open spec fn fixed_prefix(c: u8) -> Seq<char> {
    seq!['\x1b', '[', '3', '8', ';', '5', ';'] + decimal(c as nat) + seq!['m']
}

/// The escape code that restores the default style.
pub open spec fn reset() -> Seq<char> {
    seq!['\x1b', '[', '0', 'm']
}

/// The glyph once per colour, each preceded by its colour's escape code
/// unless the colour before it was the same.
pub open spec fn painted_run(colours: Seq<u8>, glyph: Seq<char>) -> Seq<char>
    decreases colours.len(),
{
    if colours.len() == 0 {
        Seq::empty()
    } else if colours.len() == 1 {
        fixed_prefix(colours[0]) + glyph
    } else {
        let change = if colours.last() == colours[colours.len() - 2] {
            Seq::empty()
        } else {
            fixed_prefix(colours.last())
        };
        painted_run(colours.drop_last(), glyph) + change + glyph
    }
}

/// The glyph painted in each colour, closed by a reset.
pub open spec fn ansi_painted(colours: Seq<u8>, glyph: Seq<char>) -> Seq<char> {
    if colours.len() == 0 {
        Seq::empty()
    } else {
        painted_run(colours, glyph) + reset()
    }
}

/// Relies on `colorhash256::hash_as_ansi`: eight colours, each `16 + h % 216`
/// for a byte `h` of the bytes' SHA-256 digest, so within `16..232`.
#[verifier::external_body]
fn hash_as_ansi(bytes: &[u8]) -> (r: [u16; 8])
    ensures
        r@ == ansi_hash(bytes@),
        forall|i: int| 0 <= i < 8 ==> 16 <= #[trigger] r@[i] < 232,
{
    colorhash256::hash_as_ansi(bytes)
}

/// Relies on `ansi_term::ANSIStrings` with `Colour::Fixed`: the first piece
/// opens with its colour's code, each later piece with its colour's code only
/// where the colour changes, and one reset closes the whole.
#[verifier::external_body]
fn paint_fixed(colours: [u8; 3], glyph: &str) -> (r: String)
    ensures
        r@ == ansi_painted(colours@, glyph@),
{
    ansi_term::ANSIStrings(&[
        ansi_term::Colour::Fixed(colours[0]).paint(glyph),
        ansi_term::Colour::Fixed(colours[1]).paint(glyph),
        ansi_term::Colour::Fixed(colours[2]).paint(glyph),
    ]).to_string()
}

/// The placeholder shown while the secret is shorter than `MIN_CUE_LEN`.
pub open spec fn placeholder() -> Seq<char> {
    seq!['~', '~', '~', '~', '~', '~']
}

/// The first three hash colours, each narrowed to a byte.
pub open spec fn cue_colours(hash: Seq<u16>) -> Seq<u8> {
    seq![hash[0] as u8, hash[1] as u8, hash[2] as u8]
}

/// The cue for a secret whose colour hash is already known.
pub open spec fn cue_of_hash(len: nat, hash: Seq<u16>) -> Seq<char> {
    if len < MIN_CUE_LEN {
        placeholder()
    } else {
        ansi_painted(cue_colours(hash), glyph())
    }
}

/// The cue shown for a secret typed so far.
pub open spec fn cue(secret: Seq<u8>) -> Seq<char> {
    cue_of_hash(secret.len(), ansi_hash(secret))
}

/// The colour cue for `secret`: a fixed placeholder below `MIN_CUE_LEN` bytes,
/// else the glyph painted in the first three colours of the secret's hash.
pub fn fingerprint(secret: &[u8]) -> (r: String)
    ensures
        r@ == cue(secret@),
        secret@.len() < MIN_CUE_LEN ==> r@ == placeholder(),
{
    if secret.len() < MIN_CUE_LEN {
        let r = "~~~~~~".to_owned();
        proof {
            reveal_strlit("~~~~~~");
        }
        assert(r@ =~= placeholder());
        r
    } else {
        let hash = hash_as_ansi(secret);
        paint_cue(&hash)
    }
}

/// The cue for a colour hash: the glyph painted in its first three colours,
/// each narrowed to a palette byte.
pub fn paint_cue(hash: &[u16; 8]) -> (r: String)
    ensures
        r@ == ansi_painted(cue_colours(hash@), glyph()),
{
    let colours: [u8; 3] = [hash[0] as u8, hash[1] as u8, hash[2] as u8];
    assert(colours@ =~= cue_colours(hash@));
    proof {
        reveal_strlit("~~");
    }
    assert("~~"@ =~= glyph());
    paint_fixed(colours, "~~")
}

/// The prompt that precedes the cue.
pub open spec fn prompt() -> Seq<char> {
    seq!['\r', 'P', 'a', 's', 's', 'w', 'o', 'r', 'd', ':', ' ']
}

/// What clears the prompt line once the capture has ended.
pub open spec fn clear_line() -> Seq<char> {
    seq!['\r'] + Seq::new(16, |i: int| ' ') + seq!['\r']
}

/// What the feedback hook writes to the terminal after a keystroke.
pub open spec fn feedback_line(secret: Seq<u8>, note: u8) -> Seq<char> {
    if note == SENTINEL {
        clear_line()
    } else {
        prompt() + cue(secret)
    }
}

/// The text written to the terminal after each keystroke: the prompt and the
/// cue of the secret so far, or, on `SENTINEL`, a blank that clears the line.
pub fn feedback(secret: &[u8], note: u8) -> (r: String)
    ensures
        r@ == feedback_line(secret@, note),
{
    if note == SENTINEL {
        let r = "\r                \r".to_owned();
        proof {
            reveal_strlit("\r                \r");
        }
        assert(r@ =~= clear_line());
        r
    } else {
        let cue = fingerprint(secret);
        proof {
            reveal_strlit("\rPassword: ");
        }
        assert("\rPassword: "@ =~= prompt());
        join("\rPassword: ", cue.as_str())
    }
}

/// Short secrets all show the same cue, whatever their bytes.
pub proof fn lemma_short_secrets_share_cue(a: Seq<u8>, b: Seq<u8>)
    requires
        a.len() < MIN_CUE_LEN,
        b.len() < MIN_CUE_LEN,
    ensures
        cue(a) == cue(b),
        cue(a) == placeholder(),
{
}

/// The cue is a function of the secret's bytes: equal bytes give equal cues.
pub proof fn lemma_cue_deterministic(a: Seq<u8>, b: Seq<u8>)
    requires
        a == b,
    ensures
        cue(a) == cue(b),
{
}

} // verus!
