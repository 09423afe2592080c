//! Capture of the downstream client's hardware address.
//!
//! The address is taken from the source field of the first frame observed on
//! the wired port and stored in a write-once cell: the first writer wins and
//! no later frame replaces it.

use once_cell::sync::OnceCell;
use vstd::prelude::*;
use vstd::string::StrSliceExecFns;
use vstd::string::StringExecFns;

verus! {

/// Offset of the source hardware address inside a frame.
pub const SOURCE_OFFSET: usize = 6;

/// Length of a hardware address.
pub const MAC_LEN: usize = 6;

/// Shortest frame that carries a complete source address.
pub const MIN_FRAME_LEN: usize = 12;

/// `once_cell::sync::OnceCell`, held opaque; what it holds is read through
/// `cell_contents`.
#[verifier::external_type_specification]
#[verifier::external_body]
#[verifier::reject_recursive_types(T)]
pub struct ExOnceCell<T>(OnceCell<T>);

/// What a write-once address cell holds: `None` while it is empty.
pub uninterp spec fn cell_contents(c: OnceCell<[u8; 6]>) -> Option<[u8; 6]>;

/// Relies on `once_cell::sync::OnceCell::new`: a new cell is empty.
#[verifier::external_body]
fn cell_new() -> (r: OnceCell<[u8; 6]>)
    ensures
        cell_contents(r) is None,
{
    OnceCell::new()
}

/// Relies on `once_cell::sync::OnceCell::set`: it stores the value and
/// returns `Ok` when the cell was empty, and returns `Err` leaving the cell
/// as it was when it was full.
#[verifier::external_body]
fn cell_set(c: &mut OnceCell<[u8; 6]>, value: [u8; 6]) -> (r: bool)
    ensures
        r == (cell_contents(*old(c)) is None),
        cell_contents(*final(c)) == (if r {
            Some(value)
        } else {
            cell_contents(*old(c))
        }),
{
    c.set(value).is_ok()
}

/// Relies on `once_cell::sync::OnceCell::get`: it returns the stored value,
/// or `None` when the cell is empty.
#[verifier::external_body]
fn cell_get(c: &OnceCell<[u8; 6]>) -> (r: Option<[u8; 6]>)
    ensures
        r == cell_contents(*c),
{
    c.get().copied()
}

/// The source hardware address of a frame: the six bytes after the
/// destination address.
pub open spec fn frame_source(frame: Seq<u8>) -> Seq<u8> {
    frame.subrange(SOURCE_OFFSET as int, MIN_FRAME_LEN as int)
}

/// The captured address after one more frame is offered: a frame too short
/// to hold a source address changes nothing, and a captured address is kept.
pub open spec fn after_offer(captured: Option<Seq<u8>>, frame: Seq<u8>) -> Option<Seq<u8>> {
    if frame.len() < MIN_FRAME_LEN {
        captured
    } else {
        match captured {
            Some(prev) => Some(prev),
            None => Some(frame_source(frame)),
        }
    }
}

/// The captured address after offering `frames`, in order, starting from
/// `captured`.
pub open spec fn after_offers(captured: Option<Seq<u8>>, frames: Seq<Seq<u8>>) -> Option<Seq<u8>>
    decreases frames.len(),
{
    if frames.len() == 0 {
        captured
    } else {
        after_offer(after_offers(captured, frames.drop_last()), frames.last())
    }
}

/// Once an address is captured, no run of later frames changes it.
pub proof fn lemma_capture_is_write_once(captured: Seq<u8>, frames: Seq<Seq<u8>>)
    ensures
        after_offers(Some(captured), frames) == Some(captured),
    decreases frames.len(),
{
    if frames.len() > 0 {
        lemma_capture_is_write_once(captured, frames.drop_last());
    }
}

/// Offering a run of frames to a fresh sniffer captures the source address
/// of the first frame, whatever follows it.
pub proof fn lemma_first_frame_wins(frames: Seq<Seq<u8>>)
    requires
        frames.len() > 0,
        frames[0].len() >= MIN_FRAME_LEN,
    ensures
        after_offers(None, frames) == Some(frame_source(frames[0])),
    decreases frames.len(),
{
    if frames.len() == 1 {
        assert(frames.drop_last() =~= Seq::<Seq<u8>>::empty());
    } else {
        let earlier = frames.drop_last();
        assert(earlier[0] == frames[0]);
        lemma_first_frame_wins(earlier);
    }
}

/// Why a frame cannot yield a source address.
#[derive(Debug, Clone, Copy, PartialEq, Eq, Structural)]
pub enum SniffError {
    /// The frame ends before the source address does.
    FrameTooShort,
}

/// Reads the source hardware address of a frame, or `None` when the frame is
/// too short to hold one.
pub fn source_address(frame: &[u8]) -> (r: Option<[u8; 6]>)
    ensures
        r is Some <==> frame@.len() >= MIN_FRAME_LEN,
        r matches Some(mac) ==> mac@ == frame_source(frame@),
{
    if frame.len() < MIN_FRAME_LEN {
        return None;
    }
    let mac: [u8; 6] = [frame[6], frame[7], frame[8], frame[9], frame[10], frame[11]];
    assert(mac@ =~= frame_source(frame@));
    Some(mac)
}

/// Watches downstream frames until the client's address is known.
pub struct Sniffer {
    cell: OnceCell<[u8; 6]>,
}

impl Sniffer {
    /// The captured address, `None` until a well-formed frame was offered.
    pub closed spec fn captured(&self) -> Option<Seq<u8>> {
        match cell_contents(self.cell) {
            Some(mac) => Some(mac@),
            None => None,
        }
    }

    /// A sniffer that has captured nothing yet.
    pub fn new() -> (r: Sniffer)
        ensures
            r.captured() is None,
    {
        Sniffer { cell: cell_new() }
    }

    /// Offers one downstream frame.
    ///
    /// A frame too short to hold a source address is refused and changes
    /// nothing. Otherwise its source address is committed when nothing was
    /// captured before, and the result says whether this frame was the one
    /// that set it. A captured address never changes.
    pub fn offer(&mut self, frame: &[u8]) -> (r: Result<bool, SniffError>)
        ensures
            final(self).captured() == after_offer(old(self).captured(), frame@),
            frame@.len() < MIN_FRAME_LEN ==> r == Err::<bool, SniffError>(
                SniffError::FrameTooShort,
            ),
            frame@.len() >= MIN_FRAME_LEN ==> r == Ok::<bool, SniffError>(
                old(self).captured() is None,
            ),
    {
        match source_address(frame) {
            None => Err(SniffError::FrameTooShort),
            Some(mac) => Ok(cell_set(&mut self.cell, mac)),
        }
    }

    /// The captured address, if any.
    pub fn identity(&self) -> (r: Option<[u8; 6]>)
        ensures
            r is Some <==> self.captured() is Some,
            r matches Some(mac) ==> self.captured() == Some(mac@),
    {
        cell_get(&self.cell)
    }
}

/// Lower-case hexadecimal digits, indexed by value.
pub open spec fn hex_digits() -> Seq<char> {
    seq!['0', '1', '2', '3', '4', '5', '6', '7', '8', '9', 'a', 'b', 'c', 'd', 'e', 'f']
}

/// Two lower-case hexadecimal digits for one byte, high nibble first.
pub open spec fn byte_text(b: u8) -> Seq<char> {
    seq![hex_digits()[b as int / 16], hex_digits()[b as int % 16]]
}

/// The bytes of an address written as two-digit hexadecimal groups joined
/// by colons, as in `02:aa:bb:cc:12:34`.
pub open spec fn mac_text(mac: Seq<u8>) -> Seq<char>
    decreases mac.len(),
{
    if mac.len() == 0 {
        Seq::empty()
    } else if mac.len() == 1 {
        byte_text(mac[0])
    } else {
        mac_text(mac.drop_last()) + seq![':'] + byte_text(mac.last())
    }
}

/// Formats a hardware address as colon-separated lower-case hexadecimal,
/// e.g. `02:aa:bb:cc:12:34`.
pub fn mac2str(mac: [u8; 6]) -> (r: String)
    ensures
        r@ == mac_text(mac@),
{
    let digits: &str = "0123456789abcdef";
    proof {
        reveal_strlit("0123456789abcdef");
        reveal_strlit(":");
        assert(digits@ =~= hex_digits());
    }
    let mut text = String::new();
    for i in 0..MAC_LEN
        invariant
            digits@ == hex_digits(),
            mac@.len() == MAC_LEN,
            text@ == mac_text(mac@.take(i as int)),
    {
        let b = mac[i];
        let hi = (b / 16) as usize;
        let lo = (b % 16) as usize;
        let ghost before = text@;
        if i > 0 {
            proof {
                reveal_strlit(":");
            }
            text.append(":");
        }
        let ghost separated = text@;
        let hi_digit = digits.substring_char(hi, hi + 1);
        let lo_digit = digits.substring_char(lo, lo + 1);
        text.append(hi_digit);
        text.append(lo_digit);
        proof {
            let prefix = mac@.take(i as int + 1);
            assert(prefix.drop_last() =~= mac@.take(i as int));
            assert(prefix.last() == b);
            assert(hi_digit@ =~= seq![hex_digits()[b as int / 16]]);
            assert(lo_digit@ =~= seq![hex_digits()[b as int % 16]]);
            assert(hi_digit@ + lo_digit@ =~= byte_text(b));
            assert(text@ =~= separated + byte_text(b));
            if i == 0 {
                assert(separated == before);
                assert(text@ =~= mac_text(prefix));
            } else {
                assert(separated =~= before + seq![':']);
                assert(text@ =~= mac_text(prefix));
            }
        }
    }
    assert(mac@.take(MAC_LEN as int) =~= mac@);
    text
}

} // verus!
