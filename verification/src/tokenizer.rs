//! The tokenizer: drives the cursor buffer to skip separators, extract
//! the next word, and classify it, one token per call.

use vstd::prelude::*;

use crate::reader::Reader;
use crate::reader::lemma_sep_run_end_bounds;
use crate::reader::lemma_word_run_end_bounds;
use crate::reader::sep_run_end;
use crate::reader::word_run_end;
use crate::types;
use crate::types::Types;

verus! {

/// A classified word, as handed to a downstream parser.
#[derive(Debug, PartialEq)]
pub struct Token {
    pub value: Types,
}

/// A pull-based token stream over an exclusively owned cursor buffer.
/// The tokenizer has no state of its own beyond the cursor: each call
/// to `next` is a step driven entirely by the cursor position.
pub struct Tokenizer {
    reader: Reader,
}

impl Tokenizer {
    /// The source text under the cursor.
    pub closed spec fn buffer(self) -> Seq<char> {
        self.reader.buffer()
    }

    /// The cursor position.
    pub closed spec fn pos(self) -> int {
        self.reader.pos()
    }

    /// Well-formedness of the underlying cursor.
    pub closed spec fn wf(self) -> bool {
        self.reader.wf()
    }

    /// Take exclusive ownership of a cursor buffer.
    pub fn new(reader: Reader) -> (t: Tokenizer)
        requires
            reader.wf(),
        ensures
            t.wf(),
            t.buffer() == reader.buffer(),
            t.pos() == reader.pos(),
    {
        Tokenizer { reader }
    }

    /// Produce the next token: skip separators, extract the next word,
    /// and classify it. Returns nothing exactly when only separators
    /// remain before the end of the buffer; that is the end-of-stream
    /// signal, and it is idempotent, since the cursor then rests at
    /// end-of-buffer.
    pub fn next(&mut self) -> (r: Option<Token>)
        requires
            old(self).wf(),
        ensures
            final(self).wf(),
            final(self).buffer() == old(self).buffer(),
            ({
                let skipped = sep_run_end(old(self).buffer(), old(self).pos());
                let word_end = word_run_end(old(self).buffer(), skipped);
                &&& final(self).pos() == word_end
                &&& (r is None <==> skipped == old(self).buffer().len())
                &&& (r matches Some(t) ==> Some(types::type_model(t.value))
                    == types::classify_model(old(self).buffer().subrange(skipped, word_end)))
            }),
    {
        proof {
            lemma_sep_run_end_bounds(self.reader.buffer(), self.reader.pos());
            lemma_word_run_end_bounds(
                self.reader.buffer(),
                sep_run_end(self.reader.buffer(), self.reader.pos()),
            );
        }
        self.reader.skip_separator();
        let word = self.reader.get_word();
        match types::get_type(word.as_str()) {
            Some(value) => Some(Token { value }),
            None => None,
        }
    }
}

} // verus!
