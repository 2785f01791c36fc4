//! Edit-history storage: compressed undo/redo stacks.
//!
//! Document snapshots are held as compressed byte blocks on two stacks.
//! Clearing starts the history over with one snapshot; pushing adds a
//! snapshot and invalidates the redo stack; undoing moves the newest
//! snapshot aside and yields the one before it.  The host converts
//! documents to bytes and back.

use vstd::prelude::*;

verus! {

/// What compressing a byte sequence yields: compression at the default
/// level is a function of the input alone.
pub uninterp spec fn zstd_frame_of(data: Seq<u8>) -> Seq<u8>;

/// Relies on `zstd::encode_all` at compression level 0 (the default
/// level): a compressed frame determined by the input bytes.
#[verifier::external_body]
fn zstd_encode(data: &Vec<u8>) -> (r: Result<Vec<u8>, String>)
    ensures
        r matches Ok(v) ==> v@ == zstd_frame_of(data@),
{
    match zstd::encode_all(data.as_slice(), 0) {
        Ok(v) => Ok(v),
        Err(e) => Err(format!("zstd encode error {e}")),
    }
}

/// Relies on `zstd::decode_all`: decompression is lossless, so decoding
/// the frame of some original yields exactly that original.
#[verifier::external_body]
fn zstd_decode(data: &Vec<u8>) -> (r: Result<Vec<u8>, String>)
    ensures
        (exists|orig: Seq<u8>| data@ == zstd_frame_of(orig)) ==> r is Ok,
        r matches Ok(v) ==> forall|orig: Seq<u8>| data@ == zstd_frame_of(orig)
            ==> v@ == orig,
{
    match zstd::decode_all(data.as_slice()) {
        Ok(v) => Ok(v),
        Err(e) => Err(format!("zstd decode error {e}")),
    }
}

/// The undo and redo stacks, newest snapshot last.
pub struct HistoryState {
    pub undo: Vec<Vec<u8>>,
    pub redo: Vec<Vec<u8>>,
}

impl HistoryState {
    pub fn new() -> (r: HistoryState)
        ensures
            r.undo@.len() == 0,
            r.redo@.len() == 0,
    {
        HistoryState { undo: Vec::new(), redo: Vec::new() }
    }

    /// Starts the history over with one compressed snapshot of `data`.
    pub fn clear_history(&mut self, data: &Vec<u8>) -> (r: Result<(), String>)
        ensures
            r is Ok ==> final(self).undo@.len() == 1
                && final(self).undo@[0]@ == zstd_frame_of(data@)
                && final(self).redo@.len() == 0,
            r is Err ==> final(self).undo@ == old(self).undo@
                && final(self).redo@ == old(self).redo@,
    {
        let encoded: Vec<u8> = match zstd_encode(data) {
            Ok(v) => v,
            Err(e) => {
                return Err(e);
            },
        };
        self.undo.clear();
        self.redo.clear();
        self.undo.push(encoded);
        Ok(())
    }

    /// Pushes a compressed snapshot of `data` and invalidates redo.
    pub fn push_history(&mut self, data: &Vec<u8>) -> (r: Result<(), String>)
        ensures
            r is Ok ==> final(self).undo@.len() == old(self).undo@.len() + 1
                && (forall|i: int| 0 <= i < old(self).undo@.len()
                    ==> final(self).undo@[i] == old(self).undo@[i])
                && final(self).undo@.last()@ == zstd_frame_of(data@)
                && final(self).redo@.len() == 0,
            r is Err ==> final(self).undo@ == old(self).undo@
                && final(self).redo@ == old(self).redo@,
    {
        let encoded: Vec<u8> = match zstd_encode(data) {
            Ok(v) => v,
            Err(e) => {
                return Err(e);
            },
        };
        self.undo.push(encoded);
        self.redo.clear();
        Ok(())
    }

    /// Undoes one step: the newest snapshot moves to the redo stack and
    /// the snapshot before it is decompressed and returned.  With nothing
    /// to undo, or no snapshot left beneath, an error is reported.
    pub fn read_undo(&mut self) -> (r: Result<Vec<u8>, String>)
        ensures
            old(self).undo@.len() == 0 ==> r is Err
                && final(self).undo@ == old(self).undo@
                && final(self).redo@ == old(self).redo@,
            old(self).undo@.len() > 0 ==> final(self).undo@ == old(self).undo@.drop_last()
                && final(self).redo@ == old(self).redo@.push(old(self).undo@.last()),
            old(self).undo@.len() == 1 ==> r is Err,
            old(self).undo@.len() >= 2 ==> (forall|orig: Seq<u8>|
                old(self).undo@[old(self).undo@.len() - 2]@ == zstd_frame_of(orig)
                    ==> (r matches Ok(v) && v@ == orig)),
    {
        let moved: Vec<u8> = match self.undo.pop() {
            Some(v) => v,
            None => {
                return Err("nothing to undo".to_owned());
            },
        };
        self.redo.push(moved);
        let n: usize = self.undo.len();
        if n == 0 {
            return Err("no data".to_owned());
        }
        let data: &Vec<u8> = &self.undo[n - 1];
        zstd_decode(data)
    }

    /// Redoes one step: the newest redo snapshot is looked at (and kept),
    /// and the newest undo snapshot is decompressed and returned.  With
    /// nothing to redo, or an empty undo stack, an error is reported.
    pub fn read_redo(&mut self) -> (r: Result<Vec<u8>, String>)
        ensures
            final(self).undo@ == old(self).undo@,
            old(self).redo@.len() == 0 ==> r is Err
                && final(self).redo@ == old(self).redo@,
            old(self).redo@.len() > 0 ==> final(self).redo@ == old(self).redo@,
            old(self).redo@.len() > 0 && old(self).undo@.len() == 0 ==> r is Err,
            old(self).redo@.len() > 0 && old(self).undo@.len() > 0 ==> (forall|orig: Seq<u8>|
                old(self).undo@.last()@ == zstd_frame_of(orig)
                    ==> (r matches Ok(v) && v@ == orig)),
    {
        let moved: Vec<u8> = match self.redo.pop() {
            Some(v) => v,
            None => {
                return Err("nothing to redo".to_owned());
            },
        };
        self.redo.push(moved);
        proof {
            assert(self.redo@ =~= old(self).redo@);
        }
        let n: usize = self.undo.len();
        if n == 0 {
            return Err("no data".to_owned());
        }
        let data: &Vec<u8> = &self.undo[n - 1];
        zstd_decode(data)
    }
}

} // verus!
