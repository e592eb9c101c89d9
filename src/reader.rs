//! A replayable source of frames: recorded bytes read eighteen at a time.
use vstd::prelude::*;
use crate::error::ScaleError;
use crate::toledo::FRAME_LEN;

verus! {

/// Recorded bytes and a cursor into them. Each read takes the next frame and
/// moves the cursor on; once the end is reached or passed the cursor goes back
/// to the start, so the source never runs dry.
pub struct File {
    data: Vec<u8>,
    index: usize,
}

impl File {
    #[verifier::type_invariant]
    spec fn cursor_in_bounds(self) -> bool {
        self.index <= self.data@.len()
    }

    /// The recorded bytes.
    pub closed spec fn bytes(&self) -> Seq<u8> {
        self.data@
    }

    /// Where the next read starts.
    pub closed spec fn cursor(&self) -> nat {
        self.index as nat
    }

    /// A source over `data`, its cursor at the start.
    pub fn new(data: Vec<u8>) -> (r: File)
        ensures
            r.bytes() == data@,
            r.cursor() == 0,
    {
        File { data, index: 0 }
    }

    /// The next 18 bytes. Where fewer than 18 remain the read fails with
    /// `Integrity`. The cursor moves 18 bytes on, or back to the start when
    /// that reaches or passes the end.
    pub fn read(&mut self) -> (r: Result<Vec<u8>, ScaleError>)
        ensures
            final(self).bytes() == old(self).bytes(),
            final(self).cursor() == (if old(self).cursor() + 18 >= old(self).bytes().len() {
                0
            } else {
                old(self).cursor() + 18
            }),
            r is Err <==> old(self).cursor() + 18 > old(self).bytes().len(),
            r is Err ==> r == Err::<Vec<u8>, ScaleError>(ScaleError::Integrity),
            r is Ok ==> r->Ok_0@ == old(self).bytes().subrange(
                old(self).cursor() as int,
                old(self).cursor() + 18int,
            ),
    {
        proof {
            use_type_invariant(&*self);
        }
        let a = self.index;
        let l = self.data.len();
        let fits = l - a >= FRAME_LEN;
        self.index = if fits && l - a > FRAME_LEN {
            a + FRAME_LEN
        } else {
            0
        };
        if !fits {
            return Err(ScaleError::Integrity);
        }
        let mut frame: Vec<u8> = Vec::new();
        let end = a + FRAME_LEN;
        let mut i: usize = a;
        while i < end
            invariant
                end == a + 18 <= self.data@.len(),
                a <= i <= a + 18,
                frame@ == self.data@.subrange(a as int, i as int),
            decreases end - i,
        {
            frame.push(self.data[i]);
            assert(frame@ =~= self.data@.subrange(a as int, i + 1));
            i = i + 1;
        }
        Ok(frame)
    }
}

} // verus!
