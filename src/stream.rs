use vstd::prelude::*;

use vstd::utf8::encode_utf8;

use crate::labels::{same_labeled, BoundingBoxWithLabels};
use crate::text::{decimal, push_decimal};

verus! {

/// The header of one part of the `multipart/x-mixed-replace; boundary=frame`
/// video stream carrying a JPEG image of `n` bytes.
pub open spec fn part_header(n: nat) -> Seq<char> {
    "--frame\r\nContent-Type: image/jpeg\r\nContent-Length: "@ + decimal(n) + "\r\n\r\n"@
}

/// One part of the video stream: the header, the JPEG bytes, then CR LF.
pub open spec fn stream_part(jpeg: Seq<u8>) -> Seq<u8> {
    encode_utf8(part_header(jpeg.len())) + jpeg + seq![13u8, 10u8]
}

fn push_bytes(out: &mut Vec<u8>, b: &[u8])
    ensures
        final(out)@ == old(out)@ + b@,
{
    let mut i: usize = 0;
    while i < b.len()
        invariant
            i <= b@.len(),
            out@ == old(out)@ + b@.subrange(0, i as int),
        decreases b@.len() - i,
    {
        out.push(b[i]);
        i = i + 1;
        assert(out@ =~= old(out)@ + b@.subrange(0, i as int));
    }
    assert(b@.subrange(0, i as int) =~= b@);
}

/// Frames `jpeg` as one part of the video stream.
pub fn frame_part(jpeg: &Vec<u8>) -> (r: Vec<u8>)
    ensures
        r@ == stream_part(jpeg@),
{
    let mut header = String::from_str("--frame\r\nContent-Type: image/jpeg\r\nContent-Length: ");
    push_decimal(&mut header, jpeg.len() as u64);
    header.append("\r\n\r\n");
    let mut out: Vec<u8> = Vec::new();
    push_bytes(&mut out, header.as_str().as_bytes());
    push_bytes(&mut out, jpeg.as_slice());
    out.push(13u8);
    out.push(10u8);
    assert(header@ == part_header(jpeg@.len()));
    assert(out@ =~= stream_part(jpeg@));
    out
}

/// The latest detections, replaced as a whole after each successful prediction,
/// with a version that counts the replacements.
pub struct DetectionSnapshot {
    pub version: u64,
    pub detections: Vec<BoundingBoxWithLabels>,
}

impl DetectionSnapshot {
    /// No detection yet, at version 0.
    pub fn new() -> (r: DetectionSnapshot)
        ensures
            r.version == 0,
            r.detections.len() == 0,
    {
        DetectionSnapshot { version: 0, detections: Vec::new() }
    }

    /// Replaces every detection at once; the version grows by one (it stays at
    /// `u64::MAX` once there).
    pub fn replace(&mut self, detections: Vec<BoundingBoxWithLabels>)
        ensures
            final(self).detections@ == detections@,
            final(self).version == if old(self).version < u64::MAX {
                old(self).version + 1
            } else {
                old(self).version as int
            },
            final(self).version >= old(self).version,
    {
        self.detections = detections;
        if self.version < u64::MAX {
            self.version = self.version + 1;
        }
    }

    /// A copy of the detections, for drawing without holding the snapshot.
    pub fn read(&self) -> (r: Vec<BoundingBoxWithLabels>)
        ensures
            r.len() == self.detections.len(),
            forall|i: int| 0 <= i < r.len() ==> same_labeled(#[trigger] r@[i], self.detections@[i]),
    {
        let mut out: Vec<BoundingBoxWithLabels> = Vec::new();
        let mut i: usize = 0;
        while i < self.detections.len()
            invariant
                i <= self.detections.len(),
                out.len() == i,
                forall|k: int| 0 <= k < i ==> same_labeled(#[trigger] out@[k], self.detections@[k]),
            decreases self.detections.len() - i,
        {
            out.push(self.detections[i].duplicate());
            i = i + 1;
        }
        out
    }
}

} // verus!
