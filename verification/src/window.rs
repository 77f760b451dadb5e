//! The mathematical model of a buffer: a byte region split into a prefix, a
//! body and a suffix, and the moves of the two boundaries between them.

use crate::bytes::zeros;
use crate::metadata::ParseMetadata;
use vstd::prelude::*;

verus! {

/// The three parts of a buffer's byte region. Only `body` is live data;
/// `prefix` and `suffix` are the bytes kept on either side of it.
pub struct Window {
    pub prefix: Seq<u8>,
    pub body: Seq<u8>,
    pub suffix: Seq<u8>,
}

impl Window {
    /// The window of a region whose body is `body` and that keeps nothing
    /// on either side.
    pub open spec fn of_body(body: Seq<u8>) -> Window {
        Window { prefix: Seq::empty(), body, suffix: Seq::empty() }
    }

    /// The window over `backing` whose body is `backing[start..end]`.
    pub open spec fn of_range(backing: Seq<u8>, start: int, end: int) -> Window {
        Window {
            prefix: backing.subrange(0, start),
            body: backing.subrange(start, end),
            suffix: backing.subrange(end, backing.len() as int),
        }
    }

    /// The total size of the region.
    pub open spec fn capacity(self) -> nat {
        self.prefix.len() + self.body.len() + self.suffix.len()
    }

    /// All bytes of the region, in order.
    pub open spec fn backing(self) -> Seq<u8> {
        self.prefix + self.body + self.suffix
    }

    /// Moves the first `n` bytes of the body to the end of the prefix.
    pub open spec fn shrink_front(self, n: int) -> Window {
        Window {
            prefix: self.prefix + self.body.take(n),
            body: self.body.skip(n),
            suffix: self.suffix,
        }
    }

    /// Moves the last `n` bytes of the body to the start of the suffix.
    pub open spec fn shrink_back(self, n: int) -> Window {
        Window {
            prefix: self.prefix,
            body: self.body.take(self.body.len() - n),
            suffix: self.body.skip(self.body.len() - n) + self.suffix,
        }
    }

    /// Narrows the body to its own part `[lower, upper)`.
    pub open spec fn shrink(self, lower: int, upper: int) -> Window {
        Window {
            prefix: self.prefix + self.body.take(lower),
            body: self.body.subrange(lower, upper),
            suffix: self.body.skip(upper) + self.suffix,
        }
    }

    /// Drops the first `n` bytes of the body without keeping them.
    pub open spec fn discard_front(self, n: int) -> Window {
        Window { prefix: self.prefix, body: self.body.skip(n), suffix: self.suffix }
    }

    /// Drops the last `n` bytes of the body without keeping them.
    pub open spec fn discard_back(self, n: int) -> Window {
        Window {
            prefix: self.prefix,
            body: self.body.take(self.body.len() - n),
            suffix: self.suffix,
        }
    }

    /// Narrows the body to its own part `[lower, upper)` without keeping
    /// what falls outside.
    pub open spec fn discard(self, lower: int, upper: int) -> Window {
        Window { prefix: self.prefix, body: self.body.subrange(lower, upper), suffix: self.suffix }
    }

    /// Moves the last `n` bytes of the prefix to the start of the body.
    pub open spec fn grow_front(self, n: int) -> Window {
        Window {
            prefix: self.prefix.take(self.prefix.len() - n),
            body: self.prefix.skip(self.prefix.len() - n) + self.body,
            suffix: self.suffix,
        }
    }

    /// Moves the first `n` bytes of the suffix to the end of the body.
    pub open spec fn grow_back(self, n: int) -> Window {
        Window {
            prefix: self.prefix,
            body: self.body + self.suffix.take(n),
            suffix: self.suffix.skip(n),
        }
    }

    /// Like `grow_front`, with the bytes that enter the body set to zero.
    pub open spec fn grow_front_zero(self, n: int) -> Window {
        Window {
            prefix: self.prefix.take(self.prefix.len() - n),
            body: zeros(n as nat) + self.body,
            suffix: self.suffix,
        }
    }

    /// Like `grow_back`, with the bytes that enter the body set to zero.
    pub open spec fn grow_back_zero(self, n: int) -> Window {
        Window {
            prefix: self.prefix,
            body: self.body + zeros(n as nat),
            suffix: self.suffix.skip(n),
        }
    }

    /// The whole region as body.
    pub open spec fn reset(self) -> Window {
        Window::of_body(self.backing())
    }

    /// The whole region as body, with the former prefix and suffix zeroed.
    pub open spec fn reset_zero(self) -> Window {
        Window::of_body(zeros(self.prefix.len()) + self.body + zeros(self.suffix.len()))
    }

    /// Whether prefix, body and suffix are as long as those of `other`.
    pub open spec fn same_lengths(self, other: Window) -> bool {
        &&& self.prefix.len() == other.prefix.len()
        &&& self.body.len() == other.body.len()
        &&& self.suffix.len() == other.suffix.len()
    }

    /// Whether the prefix begins with the prefix of `earlier` and the
    /// suffix ends with its suffix, both untouched.
    pub open spec fn extends(self, earlier: Window) -> bool {
        &&& earlier.prefix.len() <= self.prefix.len()
        &&& earlier.suffix.len() <= self.suffix.len()
        &&& self.prefix.take(earlier.prefix.len() as int) == earlier.prefix
        &&& self.suffix.skip(self.suffix.len() - earlier.suffix.len()) == earlier.suffix
    }

    /// The number of padding bytes missing from the body of a packet whose
    /// own body had `meta.body_len` bytes.
    pub open spec fn padding(self, meta: ParseMetadata) -> int {
        if self.body.len() < meta.body_len {
            meta.body_len - self.body.len()
        } else {
            0
        }
    }

    /// Whether the prefix and suffix hold the bytes that undoing the parse
    /// described by `meta` takes back.
    pub open spec fn can_undo_parse(self, meta: ParseMetadata) -> bool {
        &&& meta.header_len <= self.prefix.len()
        &&& self.padding(meta) + meta.footer_len <= self.suffix.len()
    }

    /// Takes back the padding, then the header, then the footer of the
    /// packet described by `meta`.
    pub open spec fn undo_parse(self, meta: ParseMetadata) -> Window {
        let back = self.padding(meta) + meta.footer_len;
        Window {
            prefix: self.prefix.take(self.prefix.len() - meta.header_len),
            body: self.prefix.skip(self.prefix.len() - meta.header_len) + self.body
                + self.suffix.take(back),
            suffix: self.suffix.skip(back),
        }
    }
}

/// Narrowing the body to `[lower, upper)` at once is shrinking the front by
/// `lower` and then the back by what lies past `upper`.
pub proof fn lemma_shrink_in_two_steps(w: Window, lower: int, upper: int)
    requires
        0 <= lower <= upper <= w.body.len(),
    ensures
        w.shrink_front(lower).shrink_back(w.body.len() - upper) == w.shrink(lower, upper),
{
    let two = w.shrink_front(lower).shrink_back(w.body.len() - upper);
    let one = w.shrink(lower, upper);
    assert(two.body =~= one.body);
    assert(two.suffix =~= one.suffix);
}

/// The same for a window that keeps nothing of what leaves its body.
pub proof fn lemma_discard_in_two_steps(w: Window, lower: int, upper: int)
    requires
        0 <= lower <= upper <= w.body.len(),
    ensures
        w.discard_front(lower).discard_back(w.body.len() - upper) == w.discard(lower, upper),
{
    let two = w.discard_front(lower).discard_back(w.body.len() - upper);
    assert(two.body =~= w.discard(lower, upper).body);
}

/// Growing the front by the whole prefix and the back by the whole suffix
/// makes the entire region the body.
pub proof fn lemma_reset_by_growing(w: Window)
    ensures
        w.grow_front(w.prefix.len() as int).grow_back(w.suffix.len() as int) == w.reset(),
{
    let grown = w.grow_front(w.prefix.len() as int).grow_back(w.suffix.len() as int);
    assert(grown.prefix =~= w.reset().prefix);
    assert(grown.body =~= w.reset().body);
    assert(grown.suffix =~= w.reset().suffix);
}

/// Undoing a parse is growing the back by the missing padding, the front by
/// the header and the back by the footer, in that order.
pub proof fn lemma_undo_parse_by_growing(w: Window, meta: ParseMetadata)
    requires
        w.can_undo_parse(meta),
    ensures
        w.grow_back(w.padding(meta)).grow_front(meta.header_len as int).grow_back(
            meta.footer_len as int,
        ) == w.undo_parse(meta),
{
    let grown = w.grow_back(w.padding(meta)).grow_front(meta.header_len as int).grow_back(
        meta.footer_len as int,
    );
    assert(grown.prefix =~= w.undo_parse(meta).prefix);
    assert(grown.body =~= w.undo_parse(meta).body);
    assert(grown.suffix =~= w.undo_parse(meta).suffix);
}

} // verus!
