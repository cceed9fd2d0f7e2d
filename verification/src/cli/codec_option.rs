//! The codec that the audio options name, as `codec=<name>`.
use super::args::{texts, BaseOptions};
use crate::text::{is_white_space, is_whitespace, str_eq};
use vstd::prelude::*;
use vstd::string::StrSliceExecFns;

verus! {

/// Where the word that starts at `i` ends: the first white space at or after `i`, or the end.
pub open spec fn word_end(s: Seq<char>, i: int) -> int
    decreases s.len() - i,
{
    if i < 0 || i >= s.len() || is_white_space(s[i]) {
        i
    } else {
        word_end(s, i + 1)
    }
}

/// A word ends at or after where it starts, and no later than the text; past a character that
/// is not white space.
pub proof fn lemma_word_end(s: Seq<char>, i: int)
    requires
        0 <= i <= s.len(),
    ensures
        i <= word_end(s, i) <= s.len(),
        i < s.len() && !is_white_space(s[i]) ==> word_end(s, i) > i,
        forall|k: int| i <= k < word_end(s, i) ==> !is_white_space(#[trigger] s[k]),
        word_end(s, i) < s.len() ==> is_white_space(s[word_end(s, i)]),
    decreases s.len() - i,
{
    if i < s.len() && !is_white_space(s[i]) {
        lemma_word_end(s, i + 1);
    }
}

/// The codec named by the first word from position `i` on that starts with `codec=`: what
/// follows `codec=` in that word.
pub open spec fn codec_from(s: Seq<char>, i: int) -> Option<Seq<char>>
    decreases s.len() - i,
{
    if i < 0 || i >= s.len() {
        None
    } else if is_white_space(s[i]) {
        codec_from(s, i + 1)
    } else {
        let j = word_end(s, i);
        proof {
            lemma_word_end(s, i);
        }
        if j - i >= 6 && s.subrange(i, i + 6) == "codec="@ {
            Some(s.subrange(i + 6, j))
        } else {
            codec_from(s, j)
        }
    }
}

/// The codec the first option naming one names, in order.
pub open spec fn codec_in_options(opts: Seq<Seq<char>>) -> Option<Seq<char>>
    decreases opts.len(),
{
    if opts.len() == 0 {
        None
    } else {
        match codec_from(opts[0], 0) {
            Some(c) => Some(c),
            None => codec_in_options(opts.drop_first()),
        }
    }
}

/// The codec one option string names, as `codec=<name>` among its white-space separated words.
pub fn codec_in(s: &str) -> (r: Option<String>)
    ensures
        match codec_from(s@, 0) {
            Some(c) => r matches Some(x) && x@ == c,
            None => r is None,
        },
{
    let n = s.unicode_len();
    let mut i: usize = 0;
    let prefix = "codec=";
    proof {
        reveal_strlit("codec=");
    }
    while i < n
        invariant
            n == s@.len(),
            i <= n,
            codec_from(s@, i as int) == codec_from(s@, 0),
            prefix@ == "codec="@,
            prefix@.len() == 6,
        decreases n - i,
    {
        if is_whitespace(s.get_char(i)) {
            i = i + 1;
        } else {
            let mut j: usize = i;
            proof {
                lemma_word_end(s@, i as int);
            }
            while j < n && !is_whitespace(s.get_char(j))
                invariant
                    n == s@.len(),
                    i <= j <= n,
                    word_end(s@, j as int) == word_end(s@, i as int),
                decreases n - j,
            {
                j = j + 1;
            }
            proof {
                lemma_word_end(s@, j as int);
            }
            assert(j == word_end(s@, i as int));
            if j - i >= 6 && str_eq(s.substring_char(i, i + 6), prefix) {
                return Some(s.substring_char(i + 6, j).to_string());
            }
            i = j;
        }
    }
    None
}

impl BaseOptions {
    /// The codec the audio options name: the first `codec=<name>` word, in the order the
    /// options were given.
    pub fn audio_codec(&self) -> (r: Option<String>)
        ensures
            match codec_in_options(texts(self.audio@)) {
                Some(c) => r matches Some(x) && x@ == c,
                None => r is None,
            },
    {
        let mut k: usize = 0;
        let ghost t = texts(self.audio@);
        assert(t.skip(0) =~= t);
        while k < self.audio.len()
            invariant
                k <= self.audio@.len(),
                t == texts(self.audio@),
                t.len() == self.audio@.len(),
                codec_in_options(t.skip(k as int)) == codec_in_options(t),
            decreases self.audio@.len() - k,
        {
            let ghost rest = t.skip(k as int);
            assert(rest[0] == self.audio@[k as int]@);
            assert(rest.drop_first() =~= t.skip(k + 1));
            match codec_in(self.audio[k].as_str()) {
                Some(c) => {
                    return Some(c);
                },
                None => {},
            }
            k = k + 1;
        }
        assert(t.skip(k as int).len() == 0);
        None
    }
}

} // verus!
