//! Clipboard formats as the shell asks for them, and their enumeration.

use crate::clipboard::hresult::{HResult, E_POINTER, S_FALSE, S_OK};
use vstd::prelude::*;

verus! {

/// One way to get data: a format, the aspect and the index of what is wanted, and the media
/// that the caller can take, one bit each.
#[derive(Clone, Copy, Debug, PartialEq, Eq, Structural)]
pub struct FormatEtc {
    pub format: u16,
    pub for_device: bool,
    pub aspect: u32,
    pub index: i32,
    pub media: u32,
}

/// Hands out formats one after the other.
#[derive(Debug)]
pub struct FormatEnumerator {
    formats: Vec<FormatEtc>,
    position: usize,
}

/// The answer to a request for formats.
#[derive(Debug)]
pub struct NextFormats {
    pub code: HResult,
    pub items: Vec<FormatEtc>,
}

/// How many of `requested` formats are there.
pub open spec fn available(requested: u32, rest: nat) -> nat {
    if requested < rest {
        requested as nat
    } else {
        rest
    }
}

impl FormatEnumerator {
    pub closed spec fn all(&self) -> Seq<FormatEtc> {
        self.formats@
    }

    pub closed spec fn cursor(&self) -> nat {
        self.position as nat
    }

    /// Whether the cursor stands in the formats or at their end.
    pub open spec fn wf(&self) -> bool {
        self.cursor() <= self.all().len()
    }

    pub fn create(formats: Vec<FormatEtc>) -> (enumerator: Self)
        ensures
            enumerator.wf(),
            enumerator.all() == formats@,
            enumerator.cursor() == 0,
    {
        FormatEnumerator { formats, position: 0 }
    }

    /// Hands out the next formats. A caller that asks for other than one must take their count,
    /// and one that asks for any must take them.
    pub fn next(&mut self, requested: u32, takes_items: bool, takes_count: bool) -> (answer:
        NextFormats)
        requires
            old(self).wf(),
        ensures
            final(self).wf(),
            final(self).all() == old(self).all(),
            if (requested != 1 && !takes_count) || (requested != 0 && !takes_items) {
                &&& answer.code == E_POINTER
                &&& answer.items@ == Seq::<FormatEtc>::empty()
                &&& final(self).cursor() == old(self).cursor()
            } else {
                let count = available(
                    requested,
                    (old(self).all().len() - old(self).cursor()) as nat,
                );
                &&& answer.code == if count == requested {
                    S_OK
                } else {
                    S_FALSE
                }
                &&& answer.items@ == old(self).all().subrange(
                    old(self).cursor() as int,
                    (old(self).cursor() + count) as int,
                )
                &&& final(self).cursor() == old(self).cursor() + count
            },
    {
        let mut items: Vec<FormatEtc> = Vec::new();
        if (requested != 1 && !takes_count) || (requested != 0 && !takes_items) {
            return NextFormats { code: E_POINTER, items };
        }
        let start: usize = self.position;
        while items.len() < requested as usize && self.position < self.formats.len()
            invariant
                start <= self.position <= self.formats@.len(),
                start == old(self).position,
                self.formats == old(self).formats,
                items@ =~= self.formats@.subrange(start as int, self.position as int),
                items@.len() <= requested,
            decreases self.formats@.len() - self.position,
        {
            items.push(self.formats[self.position]);
            self.position += 1;
        }
        let code = if items.len() == requested as usize {
            S_OK
        } else {
            S_FALSE
        };
        NextFormats { code, items }
    }

    /// Leaves out formats; the end is reported by `S_FALSE`.
    pub fn skip(&mut self, requested: u32) -> (result: Result<(), HResult>)
        requires
            old(self).wf(),
        ensures
            final(self).wf(),
            final(self).all() == old(self).all(),
            ({
                let count = available(
                    requested,
                    (old(self).all().len() - old(self).cursor()) as nat,
                );
                &&& final(self).cursor() == old(self).cursor() + count
                &&& result == if count == requested {
                    Ok::<(), HResult>(())
                } else {
                    Err(S_FALSE)
                }
            }),
    {
        let rest: usize = self.formats.len() - self.position;
        if (requested as usize) <= rest {
            self.position += requested as usize;
            Ok(())
        } else {
            self.position = self.formats.len();
            Err(S_FALSE)
        }
    }

    pub fn reset(&mut self)
        ensures
            final(self).wf(),
            final(self).all() == old(self).all(),
            final(self).cursor() == 0,
    {
        self.position = 0;
    }

    /// An enumerator over the same formats at the same place, which moves on its own.
    pub fn duplicate(&self) -> (copy: Self)
        requires
            self.wf(),
        ensures
            copy.wf(),
            copy.all() == self.all(),
            copy.cursor() == self.cursor(),
    {
        let mut formats: Vec<FormatEtc> = Vec::new();
        formats.extend_from_slice(self.formats.as_slice());
        assert(formats@ =~= self.formats@);
        FormatEnumerator { formats, position: self.position }
    }
}

} // verus!
