//! Tracking tokenizer state.

use vstd::prelude::*;
use crate::range::Range;
use crate::{MetaData, MetaDataV};

verus! {

/// Stores the number of tokens received.
#[derive(Copy, Clone, Debug, PartialEq, Eq, PartialOrd, Ord)]
pub struct TokenizerState(pub usize);

impl TokenizerState {
    /// Creates a new tokenizer state.
    pub fn new() -> (s: TokenizerState)
        ensures
            s.0 == 0,
    {
        TokenizerState(0)
    }
}

/// The view of a token with its range.
pub open spec fn tok_view(t: Range<MetaData>) -> Range<MetaDataV> {
    Range { offset: t.offset, length: t.length, data: t.data@ }
}

/// The view of a list of tokens.
pub open spec fn toks_view(ts: Seq<Range<MetaData>>) -> Seq<Range<MetaDataV>> {
    ts.map_values(|t: Range<MetaData>| tok_view(t))
}

/// The token list after storing `data` at `state`: the tokens past the state
/// are dropped and the new token is appended.
/// The second part is the new state, the number of tokens kept; a list
/// never holds more than `usize::MAX` tokens, so the state stops there.
pub open spec fn stored(tokens: Seq<Range<MetaDataV>>, data: Range<MetaDataV>, state: usize) -> (Seq<Range<MetaDataV>>, usize) {
    let kept = if (state as int) < tokens.len() { tokens.subrange(0, state as int) } else { tokens };
    (kept.push(data), if kept.len() + 1 > usize::MAX { usize::MAX } else { (kept.len() + 1) as usize })
}

/// Reads meta data.
pub fn read_data(
    tokens: &mut Vec<Range<MetaData>>,
    range_data: Range<MetaData>,
    state: &TokenizerState,
) -> (s: TokenizerState)
    ensures
        toks_view(final(tokens)@) == stored(toks_view(old(tokens)@), tok_view(range_data), state.0).0,
        s.0 == stored(toks_view(old(tokens)@), tok_view(range_data), state.0).1,
        s.0 == final(tokens)@.len(),
{
    let ghost old_tokens = tokens@;
    if state.0 < tokens.len() {
        tokens.truncate(state.0);
    }
    proof {
        assert(toks_view(tokens@) =~= if (state.0 as int) < old_tokens.len() { toks_view(old_tokens).subrange(0, state.0 as int) } else { toks_view(old_tokens) });
    }
    tokens.push(range_data);
    proof {
        let kept = if (state.0 as int) < old_tokens.len() { toks_view(old_tokens).subrange(0, state.0 as int) } else { toks_view(old_tokens) };
        assert(toks_view(tokens@) =~= kept.push(tok_view(range_data)));
    }
    TokenizerState(tokens.len())
}

} // verus!
