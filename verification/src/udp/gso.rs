//! Batches of datagrams for one destination, and segmentation offload: the
//! kernel cuts one large send into datagrams of equal length.

use vstd::prelude::*;

verus! {

/// Datagrams of one batched send.
pub const SEND_BATCH_SIZE: usize = 256;

/// Datagrams of one segmented send.
pub const UDP_GSO_MAX_SEGMENTS: usize = 64;

/// Slices that one datagram may consist of.
pub const UDP_PAYLOAD_MAX_SLICES: usize = 2;

/// Slices of one segmented send.
pub const UDP_GSO_MAX_IOV: usize = 128;

/// Bytes of one segmented send.
pub const UDP_GSO_MAX_PAYLOAD: usize = 65_527;

/// The largest segment length that the kernel can be told.
pub const UDP_GSO_MAX_SEGMENT: usize = 65_535;

/// The shape of one datagram: its length, and the lengths of its slices.
pub struct PayloadShape {
    pub len: usize,
    pub slices: Seq<usize>,
}

/// A batch of datagrams for one destination.
pub trait UdpPayloadBatch {
    /// The shapes of the datagrams.
    spec fn shapes(&self) -> Seq<PayloadShape>;

    fn len(&self) -> (n: usize)
        ensures
            n == self.shapes().len(),
    ;

    fn payload_len(&self, index: usize) -> (n: usize)
        requires
            index < self.shapes().len(),
        ensures
            n == self.shapes()[index as int].len,
    ;

    fn slice_count(&self, index: usize) -> (n: usize)
        requires
            index < self.shapes().len(),
        ensures
            n == self.shapes()[index as int].slices.len(),
    ;

    fn slice_len(&self, index: usize, slice: usize) -> (n: usize)
        requires
            index < self.shapes().len(),
            slice < self.shapes()[index as int].slices.len(),
        ensures
            n == self.shapes()[index as int].slices[slice as int],
    ;
}

/// A datagram in slices, together with its length as the sender states it.
#[derive(Debug)]
pub struct Payload {
    pub len: usize,
    pub slices: Vec<Vec<u8>>,
}

/// A batch of datagrams in memory.
#[derive(Debug)]
pub struct PayloadBatch {
    pub payloads: Vec<Payload>,
}

impl UdpPayloadBatch for PayloadBatch {
    open spec fn shapes(&self) -> Seq<PayloadShape> {
        self.payloads@.map_values(
            |p: Payload|
                PayloadShape {
                    len: p.len,
                    slices: p.slices@.map_values(|s: Vec<u8>| s@.len() as usize),
                },
        )
    }

    fn len(&self) -> (n: usize) {
        self.payloads.len()
    }

    fn payload_len(&self, index: usize) -> (n: usize) {
        self.payloads[index].len
    }

    fn slice_count(&self, index: usize) -> (n: usize) {
        self.payloads[index].slices.len()
    }

    fn slice_len(&self, index: usize, slice: usize) -> (n: usize) {
        self.payloads[index].slices[slice].len()
    }
}

impl Payload {
    /// A datagram as long as its slices together.
    pub fn new(slices: Vec<Vec<u8>>) -> (payload: Payload)
        requires
            total_len(slices@) <= usize::MAX,
        ensures
            payload.slices == slices,
            payload.len == total_len(slices@),
    {
        let len: usize = slices_len(&slices);
        Payload { len, slices }
    }
}

/// The length of slices together.
pub open spec fn total_len(slices: Seq<Vec<u8>>) -> nat
    decreases slices.len(),
{
    if slices.len() == 0 {
        0
    } else {
        total_len(slices.drop_last()) + slices.last()@.len()
    }
}

proof fn lemma_total_len_prefix(slices: Seq<Vec<u8>>, n: int)
    requires
        0 <= n <= slices.len(),
    ensures
        total_len(slices.take(n)) <= total_len(slices),
    decreases slices.len() - n,
{
    if n < slices.len() {
        lemma_total_len_prefix(slices, n + 1);
        assert(slices.take(n + 1).drop_last() =~= slices.take(n));
    } else {
        assert(slices.take(n) =~= slices);
    }
}

fn slices_len(slices: &Vec<Vec<u8>>) -> (n: usize)
    requires
        total_len(slices@) <= usize::MAX,
    ensures
        n == total_len(slices@),
{
    let mut n: usize = 0;
    let mut i: usize = 0;
    while i < slices.len()
        invariant
            i <= slices@.len(),
            total_len(slices@) <= usize::MAX,
            n == total_len(slices@.take(i as int)),
        decreases slices@.len() - i,
    {
        proof {
            assert(slices@.take(i + 1).drop_last() =~= slices@.take(i as int));
            lemma_total_len_prefix(slices@, i + 1);
        }
        n = n + slices[i].len();
        i = i + 1;
    }
    assert(slices@.take(i as int) =~= slices@);
    n
}

/// The bytes of slices in a row.
pub open spec fn joined_slices(slices: Seq<Vec<u8>>) -> Seq<u8>
    decreases slices.len(),
{
    if slices.len() == 0 {
        Seq::empty()
    } else {
        joined_slices(slices.drop_last()) + slices.last()@
    }
}

impl PayloadBatch {
    /// Makes `out` one datagram in a row.
    pub fn copy_payload_into(&self, index: usize, out: &mut Vec<u8>)
        requires
            index < self.payloads@.len(),
        ensures
            final(out)@ == joined_slices(self.payloads@[index as int].slices@),
    {
        out.clear();
        let slices = &self.payloads[index].slices;
        let mut i: usize = 0;
        assert(slices@.take(0) =~= Seq::<Vec<u8>>::empty());
        while i < slices.len()
            invariant
                i <= slices@.len(),
                out@ == joined_slices(slices@.take(i as int)),
            decreases slices@.len() - i,
        {
            let ghost before = out@;
            out.extend_from_slice(slices[i].as_slice());
            assert(out@ =~= before + slices@[i as int]@);
            assert(slices@.take(i + 1).drop_last() =~= slices@.take(i as int));
            i = i + 1;
        }
        assert(slices@.take(i as int) =~= slices@);
    }
}

// ---------------------------------------------------------------------------
// Segmentation offload
// ---------------------------------------------------------------------------

/// The bytes of `n` datagrams together, from `offset` on.
pub open spec fn run_len(shapes: Seq<PayloadShape>, offset: int, n: nat) -> nat
    decreases n,
{
    if n == 0 {
        0
    } else {
        run_len(shapes, offset, (n - 1) as nat) + shapes[offset + n - 1].len as nat
    }
}

/// How many datagrams from `offset` on may be considered for one send.
pub open spec fn batch_width(total: int, offset: int, limit: int) -> int {
    let left = if total > offset {
        total - offset
    } else {
        0
    };
    if left < limit {
        left
    } else {
        limit
    }
}

/// How many datagrams may be considered for one segmented send.
pub open spec fn gso_width(total: int, offset: int, candidate: int) -> int {
    let width = batch_width(total, offset, candidate);
    if width < UDP_GSO_MAX_SEGMENTS {
        width
    } else {
        UDP_GSO_MAX_SEGMENTS as int
    }
}

/// Whether the first `n` datagrams from `offset` on can leave in one segmented
/// send: there are two at least, all but the last are equally long, the last is
/// no longer and not empty, and together they are not too long.
pub open spec fn gso_fits(
    shapes: Seq<PayloadShape>,
    offset: int,
    candidate: int,
    n: int,
) -> bool {
    let segment = shapes[offset].len;
    &&& 2 <= n <= gso_width(shapes.len() as int, offset, candidate)
    &&& 0 < segment <= UDP_GSO_MAX_SEGMENT
    &&& forall|i: int| 0 <= i < n - 1 ==> (#[trigger] shapes[offset + i]).len == segment
    &&& 0 < shapes[offset + n - 1].len <= segment
    &&& run_len(shapes, offset, n as nat) <= UDP_GSO_MAX_PAYLOAD
}

/// More datagrams are not shorter.
pub proof fn lemma_run_len_grows(shapes: Seq<PayloadShape>, offset: int, n: nat, m: nat)
    requires
        n <= m,
    ensures
        run_len(shapes, offset, n) <= run_len(shapes, offset, m),
    decreases m - n,
{
    if n < m {
        lemma_run_len_grows(shapes, offset, n, (m - 1) as nat);
    }
}

/// The number of datagrams from `offset` on that can leave in one segmented
/// send: as many as fit, or none where not even two do.
pub fn udp_gso_prefix_len<B: UdpPayloadBatch>(payloads: &B, offset: usize, candidate: usize) -> (n:
    usize)
    ensures
        n == 0 || gso_fits(payloads.shapes(), offset as int, candidate as int, n as int),
        forall|more: int|
            more > n ==> !gso_fits(payloads.shapes(), offset as int, candidate as int, more),
{
    let ghost shapes = payloads.shapes();
    let total: usize = payloads.len();
    let max: usize = gso_limit(total, offset, candidate);
    if max < 2 {
        return 0;
    }
    let segment_size: usize = payloads.payload_len(offset);
    if segment_size == 0 || segment_size > UDP_GSO_MAX_SEGMENT {
        return 0;
    }
    let mut total_payload: usize = 0;
    let mut count: usize = 0;
    let mut ended: bool = false;
    while count < max && !ended
        invariant
            shapes == payloads.shapes(),
            total == shapes.len(),
            max == gso_width(shapes.len() as int, offset as int, candidate as int),
            offset + max <= shapes.len(),
            2 <= max,
            segment_size == shapes[offset as int].len,
            0 < segment_size <= UDP_GSO_MAX_SEGMENT,
            count <= max,
            total_payload == run_len(shapes, offset as int, count as nat),
            total_payload <= UDP_GSO_MAX_PAYLOAD || count <= 1,
            total_payload <= UDP_GSO_MAX_PAYLOAD + UDP_GSO_MAX_SEGMENT,
            forall|i: int|
                0 <= i < count - 1 ==> (#[trigger] shapes[offset + i]).len == segment_size,
            count > 0 ==> 0 < shapes[offset + count - 1].len <= segment_size,
            !ended ==> (forall|i: int|
                0 <= i < count ==> (#[trigger] shapes[offset + i]).len == segment_size),
            ended ==> forall|more: int|
                more > count ==> !gso_fits(shapes, offset as int, candidate as int, more),
        decreases max - count + (if ended {
            0int
        } else {
            1
        }),
    {
        let len: usize = payloads.payload_len(offset + count);
        if len == 0 || len > segment_size || (count > 0 && total_payload + len
            > UDP_GSO_MAX_PAYLOAD) {
            proof {
                assert forall|more: int| more > count implies !gso_fits(
                    shapes,
                    offset as int,
                    candidate as int,
                    more,
                ) by {
                    if gso_fits(shapes, offset as int, candidate as int, more) {
                        assert(shapes[offset + count].len == len);
                        lemma_run_len_grows(shapes, offset as int, (count + 1) as nat, more as nat);
                        assert(run_len(shapes, offset as int, (count + 1) as nat) == total_payload
                            + len);
                        if more - 1 > count {
                            assert(shapes[offset + count].len == segment_size);
                        }
                    }
                }
            }
            ended = true;
        } else {
            total_payload = total_payload + len;
            count = count + 1;
            if len < segment_size {
                proof {
                    assert forall|more: int| more > count implies !gso_fits(
                        shapes,
                        offset as int,
                        candidate as int,
                        more,
                    ) by {
                        if gso_fits(shapes, offset as int, candidate as int, more) {
                            assert(shapes[offset + (count - 1)].len == segment_size);
                        }
                    }
                }
                ended = true;
            }
        }
    }
    if count > 1 {
        count
    } else {
        0
    }
}

fn gso_limit(total: usize, offset: usize, candidate: usize) -> (n: usize)
    ensures
        n == gso_width(total as int, offset as int, candidate as int),
        n > 0 ==> offset + n <= total,
{
    let mut n: usize = total.saturating_sub(offset);
    if n > candidate {
        n = candidate;
    }
    if n > SEND_BATCH_SIZE {
        n = SEND_BATCH_SIZE;
    }
    if n > UDP_GSO_MAX_SEGMENTS {
        n = UDP_GSO_MAX_SEGMENTS;
    }
    n
}

// ---------------------------------------------------------------------------
// Sending
// ---------------------------------------------------------------------------

/// The length of the first `n` slices together. A sum that is too large stays
/// at the largest number there is.
pub open spec fn slice_total(slices: Seq<usize>, n: nat) -> nat
    decreases n,
{
    if n == 0 {
        0
    } else {
        let sum = slice_total(slices, (n - 1) as nat) + slices[n - 1] as nat;
        if sum <= usize::MAX {
            sum
        } else {
            usize::MAX as nat
        }
    }
}

fn slice_total_of<B: UdpPayloadBatch>(payloads: &B, index: usize) -> (sum: usize)
    requires
        index < payloads.shapes().len(),
    ensures
        sum == slice_total(
            payloads.shapes()[index as int].slices,
            payloads.shapes()[index as int].slices.len(),
        ),
{
    let n: usize = payloads.slice_count(index);
    let mut sum: usize = 0;
    let mut i: usize = 0;
    while i < n
        invariant
            index < payloads.shapes().len(),
            n == payloads.shapes()[index as int].slices.len(),
            i <= n,
            sum == slice_total(payloads.shapes()[index as int].slices, i as nat),
        decreases n - i,
    {
        sum = sum.saturating_add(payloads.slice_len(index, i));
        i = i + 1;
    }
    sum
}

/// Why a datagram cannot be part of a batched send, if it cannot.
pub open spec fn shape_refusal(shape: PayloadShape) -> Option<Seq<char>> {
    if shape.slices.len() == 0 || shape.slices.len() > UDP_PAYLOAD_MAX_SLICES {
        Some("invalid UDP payload slices"@)
    } else if slice_total(shape.slices, shape.slices.len()) != shape.len {
        Some("UDP payload slices do not match payload length"@)
    } else {
        None
    }
}

/// Why `n` datagrams from `offset` on cannot leave in a batched send, if they
/// cannot: the first reason there is.
pub open spec fn batch_refusal(shapes: Seq<PayloadShape>, offset: int, n: nat) -> Option<Seq<char>>
    decreases n,
{
    if n == 0 {
        None
    } else {
        match batch_refusal(shapes, offset, (n - 1) as nat) {
            Some(reason) => Some(reason),
            None => shape_refusal(shapes[offset + n - 1]),
        }
    }
}

/// How many datagrams a batched send that asks for `count` may consist of.
pub open spec fn batch_limit(count: usize) -> int {
    if count < SEND_BATCH_SIZE {
        count as int
    } else {
        SEND_BATCH_SIZE as int
    }
}

/// The number of datagrams of a batched send of up to `count`, from `offset` on.
pub fn plan_send_batch<B: UdpPayloadBatch>(payloads: &B, offset: usize, count: usize) -> (result:
    Result<usize, String>)
    ensures
        ({
            let width = batch_width(
                payloads.shapes().len() as int,
                offset as int,
                batch_limit(count),
            );
            let refusal = batch_refusal(payloads.shapes(), offset as int, width as nat);
            match result {
                Ok(n) => n == width && refusal is None,
                Err(reason) => refusal == Some(reason@),
            }
        }),
{
    let total: usize = payloads.len();
    let width: usize = width_of_call(payloads, offset);
    let n: usize = if width < count {
        width
    } else {
        count
    };
    let mut i: usize = 0;
    while i < n
        invariant
            total == payloads.shapes().len(),
            n > 0 ==> offset + n <= total,
            i <= n,
            batch_refusal(payloads.shapes(), offset as int, i as nat) is None,
            n == batch_width(
                payloads.shapes().len() as int,
                offset as int,
                batch_limit(count),
            ),
        decreases n - i,
    {
        let index: usize = offset + i;
        let slices: usize = payloads.slice_count(index);
        if slices == 0 || slices > UDP_PAYLOAD_MAX_SLICES {
            proof {
                lemma_refusal_stays(
                    payloads.shapes(),
                    offset as int,
                    (i + 1) as nat,
                    n as nat,
                    "invalid UDP payload slices"@,
                );
            }
            return Err("invalid UDP payload slices".to_owned());
        }
        if slice_total_of(payloads, index) != payloads.payload_len(index) {
            proof {
                lemma_refusal_stays(
                    payloads.shapes(),
                    offset as int,
                    (i + 1) as nat,
                    n as nat,
                    "UDP payload slices do not match payload length"@,
                );
            }
            return Err("UDP payload slices do not match payload length".to_owned());
        }
        i = i + 1;
    }
    Ok(n)
}

proof fn lemma_refusal_stays(
    shapes: Seq<PayloadShape>,
    offset: int,
    n: nat,
    m: nat,
    reason: Seq<char>,
)
    requires
        n <= m,
        batch_refusal(shapes, offset, n) == Some(reason),
    ensures
        batch_refusal(shapes, offset, m) == Some(reason),
    decreases m - n,
{
    if n < m {
        lemma_refusal_stays(shapes, offset, n, (m - 1) as nat, reason);
    }
}

/// A slice of a segmented send: the datagram that it belongs to, counted from
/// the start of the send, and its place in it.
#[derive(Clone, Copy, Debug, PartialEq, Eq, Structural)]
pub struct GsoSlice {
    pub payload: usize,
    pub slice: usize,
}

/// The slices of a datagram, in order.
pub open spec fn slices_of(payload: int, count: nat) -> Seq<GsoSlice> {
    Seq::new(count, |s: int| GsoSlice { payload: payload as usize, slice: s as usize })
}

/// The slices of the first `n` datagrams from `offset` on, in order, or why
/// they cannot leave in one segmented send.
pub open spec fn gso_slices(
    shapes: Seq<PayloadShape>,
    offset: int,
    n: nat,
) -> Result<Seq<GsoSlice>, Seq<char>>
    decreases n,
{
    if n == 0 {
        Ok(Seq::empty())
    } else {
        let shape = shapes[offset + n - 1];
        match gso_slices(shapes, offset, (n - 1) as nat) {
            Err(reason) => Err(reason),
            Ok(slices) => if shape.len == 0 || shape.len > shapes[offset].len {
                Err("UDP GSO payload length changed after prefix selection"@)
            } else if shape.slices.len() == 0 || shape.slices.len() > UDP_PAYLOAD_MAX_SLICES
                || slices.len() + shape.slices.len() > UDP_GSO_MAX_IOV {
                Err("invalid UDP GSO payload slices"@)
            } else if slice_total(shape.slices, shape.slices.len()) != shape.len {
                Err("UDP GSO payload slices do not match payload length"@)
            } else {
                Ok(slices + slices_of(n - 1, shape.slices.len()))
            },
        }
    }
}

proof fn lemma_gso_error_stays(
    shapes: Seq<PayloadShape>,
    offset: int,
    n: nat,
    m: nat,
    reason: Seq<char>,
)
    requires
        n <= m,
        gso_slices(shapes, offset, n) == Err::<Seq<GsoSlice>, Seq<char>>(reason),
    ensures
        gso_slices(shapes, offset, m) == Err::<Seq<GsoSlice>, Seq<char>>(reason),
    decreases m - n,
{
    if n < m {
        lemma_gso_error_stays(shapes, offset, n, (m - 1) as nat, reason);
    }
}

/// Lists the slices of a segmented send of `count` datagrams from `offset` on.
pub fn plan_gso_batch<B: UdpPayloadBatch>(payloads: &B, offset: usize, count: usize) -> (result:
    Result<Vec<GsoSlice>, String>)
    requires
        1 < count,
        offset + count <= payloads.shapes().len(),
    ensures
        ({
            let n = if count < UDP_GSO_MAX_SEGMENTS {
                count
            } else {
                UDP_GSO_MAX_SEGMENTS
            };
            match result {
                Ok(slices) => gso_slices(payloads.shapes(), offset as int, n as nat) == Ok::<
                    Seq<GsoSlice>,
                    Seq<char>,
                >(slices@),
                Err(reason) => gso_slices(payloads.shapes(), offset as int, n as nat) == Err::<
                    Seq<GsoSlice>,
                    Seq<char>,
                >(reason@),
            }
        }),
{
    let ghost shapes = payloads.shapes();
    let total: usize = payloads.len();
    let n: usize = if count < UDP_GSO_MAX_SEGMENTS {
        count
    } else {
        UDP_GSO_MAX_SEGMENTS
    };
    let segment_size: usize = payloads.payload_len(offset);
    let mut slices: Vec<GsoSlice> = Vec::new();
    let mut i: usize = 0;
    while i < n
        invariant
            shapes == payloads.shapes(),
            total == shapes.len(),
            n == if count < UDP_GSO_MAX_SEGMENTS {
                count
            } else {
                UDP_GSO_MAX_SEGMENTS
            },
            offset + n <= total,
            segment_size == shapes[offset as int].len,
            i <= n,
            slices@.len() <= UDP_GSO_MAX_IOV,
            gso_slices(shapes, offset as int, i as nat) == Ok::<Seq<GsoSlice>, Seq<char>>(slices@),
        decreases n - i,
    {
        let index: usize = offset + i;
        let len: usize = payloads.payload_len(index);
        if len == 0 || len > segment_size {
            proof {
                lemma_gso_error_stays(
                    shapes,
                    offset as int,
                    (i + 1) as nat,
                    n as nat,
                    "UDP GSO payload length changed after prefix selection"@,
                );
            }
            return Err("UDP GSO payload length changed after prefix selection".to_owned());
        }
        let slice_count: usize = payloads.slice_count(index);
        if slice_count == 0 || slice_count > UDP_PAYLOAD_MAX_SLICES || slices.len() + slice_count
            > UDP_GSO_MAX_IOV {
            proof {
                lemma_gso_error_stays(
                    shapes,
                    offset as int,
                    (i + 1) as nat,
                    n as nat,
                    "invalid UDP GSO payload slices"@,
                );
            }
            return Err("invalid UDP GSO payload slices".to_owned());
        }
        if slice_total_of(payloads, index) != len {
            proof {
                lemma_gso_error_stays(
                    shapes,
                    offset as int,
                    (i + 1) as nat,
                    n as nat,
                    "UDP GSO payload slices do not match payload length"@,
                );
            }
            return Err("UDP GSO payload slices do not match payload length".to_owned());
        }
        let ghost before = slices@;
        let mut s: usize = 0;
        while s < slice_count
            invariant
                s <= slice_count,
                slices@ == before + slices_of(i as int, s as nat),
            decreases slice_count - s,
        {
            slices.push(GsoSlice { payload: i, slice: s });
            s = s + 1;
            assert(slices@ =~= before + slices_of(i as int, s as nat));
        }
        i = i + 1;
    }
    Ok(slices)
}

/// How the next datagrams leave.
#[derive(Clone, Copy, Debug, PartialEq, Eq, Structural)]
pub enum SendMethod {
    /// There are none.
    Nothing,
    /// This many in one segmented send.
    Segmented(usize),
    /// This many one by one, in one batched send.
    Batched(usize),
}

/// How a call that sends a batch goes on.
#[derive(Clone, Copy, Debug, PartialEq, Eq, Structural)]
pub enum SendProgress {
    /// This many datagrams have left, and more are to follow.
    Continue { sent: usize },
    /// The call ends; this many datagrams have left.
    Finished { sent: usize },
    /// The call ends with the error of its first send; none has left.
    Failed,
}

/// How many datagrams one call sends, from `offset` on.
pub open spec fn call_width(shapes: Seq<PayloadShape>, offset: int) -> int {
    batch_width(shapes.len() as int, offset, SEND_BATCH_SIZE as int)
}

/// Whether a call that starts at `offset`, and of whose datagrams `sent` have
/// left, goes on by `method`: in as large a segmented send as there is, and
/// otherwise with all that is left in one batched send.
pub open spec fn is_chosen(
    shapes: Seq<PayloadShape>,
    offset: int,
    sent: int,
    gso_disabled: bool,
    method: SendMethod,
) -> bool {
    let at = offset + sent;
    let left = call_width(shapes, offset) - sent;
    match method {
        SendMethod::Nothing => left <= 0,
        SendMethod::Segmented(n) => {
            &&& left > 0 && !gso_disabled
            &&& gso_fits(shapes, at, left, n as int)
            &&& forall|more: int| more > n ==> !gso_fits(shapes, at, left, more)
        },
        SendMethod::Batched(n) => {
            &&& left > 0 && n == left
            &&& gso_disabled || forall|more: int| !gso_fits(shapes, at, left, more)
        },
    }
}

fn width_of_call<B: UdpPayloadBatch>(payloads: &B, offset: usize) -> (n: usize)
    ensures
        n == call_width(payloads.shapes(), offset as int),
        n > 0 ==> offset + n <= payloads.shapes().len(),
        offset + n <= usize::MAX,
{
    let left: usize = payloads.len().saturating_sub(offset);
    if left < SEND_BATCH_SIZE {
        left
    } else {
        SEND_BATCH_SIZE
    }
}

/// Decides how a call that starts at `offset`, and of whose datagrams `sent`
/// have left, goes on.
pub fn choose_send_method<B: UdpPayloadBatch>(
    payloads: &B,
    offset: usize,
    sent: usize,
    gso_disabled: bool,
) -> (method: SendMethod)
    ensures
        is_chosen(payloads.shapes(), offset as int, sent as int, gso_disabled, method),
{
    let left: usize = width_of_call(payloads, offset).saturating_sub(sent);
    if left == 0 {
        return SendMethod::Nothing;
    }
    if !gso_disabled {
        let segments: usize = udp_gso_prefix_len(payloads, offset + sent, left);
        if segments > 1 {
            return SendMethod::Segmented(segments);
        }
    }
    SendMethod::Batched(left)
}

/// How many datagrams have left, of `width` in all, after a send of which the
/// kernel says that `accepted` left. A segmented send leaves whole.
pub open spec fn sent_after(width: int, sent: int, method: SendMethod, accepted: int) -> int {
    let left = if sent < width {
        width - sent
    } else {
        0
    };
    let more = match method {
        SendMethod::Nothing => 0,
        SendMethod::Segmented(n) => n as int,
        SendMethod::Batched(n) => if accepted < n {
            accepted
        } else {
            n as int
        },
    };
    sent + if more < left {
        more
    } else {
        left
    }
}

/// Whether a call goes on so after a send by `method`. It goes on after a
/// segmented send, until all have left. A batched send is its last, and so is
/// one that failed: what left before it counts, and the error is reported only
/// where nothing did.
pub open spec fn progresses(
    width: int,
    sent: int,
    method: SendMethod,
    outcome: Option<usize>,
    progress: SendProgress,
) -> bool {
    match (method, outcome) {
        (SendMethod::Nothing, _) => progress matches SendProgress::Finished { sent: total }
            && total == sent,
        (_, None) => if sent == 0 {
            progress is Failed
        } else {
            progress matches SendProgress::Finished { sent: total } && total == sent
        },
        (_, Some(accepted)) => {
            let after = sent_after(width, sent, method, accepted as int);
            if method is Segmented && after < width {
                progress matches SendProgress::Continue { sent: total } && total == after
            } else {
                progress matches SendProgress::Finished { sent: total } && total == after
            }
        },
    }
}

/// How a call goes on after a send: `outcome` is how many datagrams the kernel
/// accepted, or nothing where the send failed.
pub fn send_ended<B: UdpPayloadBatch>(
    payloads: &B,
    offset: usize,
    sent: usize,
    method: SendMethod,
    outcome: Option<usize>,
) -> (progress: SendProgress)
    ensures
        progresses(
            call_width(payloads.shapes(), offset as int),
            sent as int,
            method,
            outcome,
            progress,
        ),
{
    let width: usize = width_of_call(payloads, offset);
    let left: usize = width.saturating_sub(sent);
    let accepted: usize = match (method, outcome) {
        (SendMethod::Nothing, _) => return SendProgress::Finished { sent },
        (_, None) => return if sent == 0 {
            SendProgress::Failed
        } else {
            SendProgress::Finished { sent }
        },
        (SendMethod::Segmented(n), Some(_)) => n,
        (SendMethod::Batched(n), Some(accepted)) => if accepted < n {
            accepted
        } else {
            n
        },
    };
    let total: usize = if accepted < left {
        sent + accepted
    } else {
        sent + left
    };
    match method {
        SendMethod::Segmented(_) if total < width => SendProgress::Continue { sent: total },
        _ => SendProgress::Finished { sent: total },
    }
}

/// The error numbers by which a kernel says that it cannot segment.
#[derive(Clone, Copy, Debug)]
pub struct GsoErrnos {
    pub eopnotsupp: i32,
    pub enoprotoopt: i32,
    pub eio: i32,
}

/// Whether an error of a segmented send says that the kernel cannot segment, so
/// that the datagrams leave one by one from then on.
pub fn is_udp_gso_capability_error(
    invalid_input: bool,
    raw_os_error: Option<i32>,
    errnos: GsoErrnos,
) -> (yes: bool)
    ensures
        yes == (invalid_input || raw_os_error == Some(errnos.eopnotsupp) || raw_os_error == Some(
            errnos.enoprotoopt,
        ) || raw_os_error == Some(errnos.eio)),
{
    if invalid_input {
        return true;
    }
    match raw_os_error {
        Some(code) => code == errnos.eopnotsupp || code == errnos.enoprotoopt || code == errnos.eio,
        None => false,
    }
}

// ---------------------------------------------------------------------------
// Laws
// ---------------------------------------------------------------------------

/// Where some datagrams fit into one segmented send, fewer of them fit too.
pub proof fn fewer_segments_fit(
    shapes: Seq<PayloadShape>,
    offset: int,
    candidate: int,
    n: int,
    fewer: int,
)
    requires
        gso_fits(shapes, offset, candidate, n),
        2 <= fewer <= n,
    ensures
        gso_fits(shapes, offset, candidate, fewer),
{
    lemma_run_len_grows(shapes, offset, fewer as nat, n as nat);
    if fewer < n {
        assert(shapes[offset + (fewer - 1)].len == shapes[offset].len);
    }
}

/// How many datagrams the kernel is given.
pub open spec fn asked_of(method: SendMethod) -> usize {
    match method {
        SendMethod::Nothing => 0,
        SendMethod::Segmented(n) => n,
        SendMethod::Batched(n) => n,
    }
}

/// Whether a call that starts at `offset`, and of whose datagrams `sent` have
/// left, sends by `methods`, of which the kernel accepts each whole, and ends
/// with `total` datagrams sent. Segmentation may be given up between two sends.
pub open spec fn call_sends(
    shapes: Seq<PayloadShape>,
    offset: int,
    sent: int,
    methods: Seq<SendMethod>,
    total: int,
) -> bool
    decreases methods.len(),
{
    &&& methods.len() > 0
    &&& exists|gso_disabled: bool| #[trigger]
        is_chosen(shapes, offset, sent, gso_disabled, methods[0])
    &&& exists|progress: SendProgress| #[trigger]
        progresses(
            call_width(shapes, offset),
            sent,
            methods[0],
            Some(asked_of(methods[0])),
            progress,
        ) && match progress {
            SendProgress::Continue { sent: after } => call_sends(
                shapes,
                offset,
                after as int,
                methods.drop_first(),
                total,
            ),
            SendProgress::Finished { sent: after } => methods.len() == 1 && total == after,
            SendProgress::Failed => false,
        }
}

/// Where the kernel accepts each send whole, one call sends its whole batch,
/// however the datagrams differ in length.
pub proof fn whole_batch_leaves_in_one_call(
    shapes: Seq<PayloadShape>,
    offset: int,
    sent: int,
    methods: Seq<SendMethod>,
    total: int,
)
    requires
        0 <= offset,
        0 <= sent <= call_width(shapes, offset),
        call_sends(shapes, offset, sent, methods, total),
    ensures
        total == call_width(shapes, offset),
    decreases methods.len(),
{
    let progress = choose|progress: SendProgress| #[trigger]
        progresses(
            call_width(shapes, offset),
            sent,
            methods[0],
            Some(asked_of(methods[0])),
            progress,
        ) && match progress {
            SendProgress::Continue { sent: after } => call_sends(
                shapes,
                offset,
                after as int,
                methods.drop_first(),
                total,
            ),
            SendProgress::Finished { sent: after } => methods.len() == 1 && total == after,
            SendProgress::Failed => false,
        };
    if let SendProgress::Continue { sent: after } = progress {
        whole_batch_leaves_in_one_call(shapes, offset, after as int, methods.drop_first(), total);
    }
}

/// After any send a call that goes on has sent more than before, and never more
/// than its batch.
pub proof fn calls_advance(
    shapes: Seq<PayloadShape>,
    offset: int,
    sent: int,
    gso_disabled: bool,
    method: SendMethod,
    outcome: Option<usize>,
    progress: SendProgress,
)
    requires
        0 <= sent <= call_width(shapes, offset),
        is_chosen(shapes, offset, sent, gso_disabled, method),
        progresses(call_width(shapes, offset), sent, method, outcome, progress),
    ensures
        match progress {
            SendProgress::Continue { sent: after } => sent < after < call_width(shapes, offset),
            SendProgress::Finished { sent: after } => sent <= after <= call_width(shapes, offset),
            SendProgress::Failed => sent == 0,
        },
{
}

/// A datagram in a row is as long as its slices together.
pub proof fn joined_slices_are_complete(slices: Seq<Vec<u8>>)
    ensures
        joined_slices(slices).len() == total_len(slices),
    decreases slices.len(),
{
    if slices.len() > 0 {
        joined_slices_are_complete(slices.drop_last());
    }
}

/// Slices in a row: a single one is itself, and those of two lists follow each
/// other. Together they are as long as their lengths.
pub proof fn slices_are_joined_in_order(a: Seq<Vec<u8>>, b: Seq<Vec<u8>>, slice: Vec<u8>)
    ensures
        joined_slices(seq![slice]) == slice@,
        joined_slices(Seq::empty()) == Seq::<u8>::empty(),
        joined_slices(a + b) == joined_slices(a) + joined_slices(b),
        total_len(seq![slice]) == slice@.len(),
        total_len(Seq::empty()) == 0,
        total_len(a + b) == total_len(a) + total_len(b),
    decreases b.len(),
{
    let one = seq![slice];
    assert(one.drop_last() =~= Seq::<Vec<u8>>::empty());
    assert(total_len(one.drop_last()) == 0);
    assert(joined_slices(one.drop_last()) + slice@ =~= slice@);
    if b.len() == 0 {
        assert(a + b =~= a);
        assert(joined_slices(a) + joined_slices(b) =~= joined_slices(a));
    } else {
        let init = b.drop_last();
        slices_are_joined_in_order(a, init, slice);
        assert((a + b).drop_last() =~= a + init);
        assert(joined_slices(a) + joined_slices(init) + b.last()@ =~= joined_slices(a) + (
        joined_slices(init) + b.last()@));
    }
}

/// The bytes of the given slices of a batch in a row, as they are handed to the
/// kernel. Datagrams are counted from `offset` on.
pub open spec fn bytes_handed_over(
    payloads: Seq<Payload>,
    offset: int,
    slices: Seq<GsoSlice>,
) -> Seq<u8>
    decreases slices.len(),
{
    if slices.len() == 0 {
        Seq::empty()
    } else {
        bytes_handed_over(payloads, offset, slices.drop_last()) + payloads[offset
            + slices.last().payload].slices@[slices.last().slice as int]@
    }
}

/// The bytes of `n` datagrams of a batch in a row, from `offset` on.
pub open spec fn datagrams_in_a_row(payloads: Seq<Payload>, offset: int, n: nat) -> Seq<u8>
    decreases n,
{
    if n == 0 {
        Seq::empty()
    } else {
        datagrams_in_a_row(payloads, offset, (n - 1) as nat) + joined_slices(
            payloads[offset + n - 1].slices@,
        )
    }
}

proof fn lemma_handed_over_in_parts(
    payloads: Seq<Payload>,
    offset: int,
    a: Seq<GsoSlice>,
    b: Seq<GsoSlice>,
)
    ensures
        bytes_handed_over(payloads, offset, a + b) == bytes_handed_over(payloads, offset, a)
            + bytes_handed_over(payloads, offset, b),
    decreases b.len(),
{
    let bytes = |s: Seq<GsoSlice>| bytes_handed_over(payloads, offset, s);
    if b.len() == 0 {
        assert(a + b =~= a);
        assert(bytes(a) + bytes(b) =~= bytes(a));
    } else {
        let init = b.drop_last();
        lemma_handed_over_in_parts(payloads, offset, a, init);
        assert((a + b).drop_last() =~= a + init);
        let last = payloads[offset + b.last().payload].slices@[b.last().slice as int]@;
        assert((a + b).last() == b.last());
        assert(bytes(a) + bytes(init) + last =~= bytes(a) + (bytes(init) + last));
    }
}

proof fn lemma_one_handed_over(payloads: Seq<Payload>, offset: int, payload: int, count: nat)
    requires
        0 <= payload <= usize::MAX,
        0 <= offset,
        offset + payload < payloads.len(),
        count <= payloads[offset + payload].slices@.len(),
        count <= usize::MAX,
    ensures
        bytes_handed_over(payloads, offset, slices_of(payload, count)) == joined_slices(
            payloads[offset + payload].slices@.take(count as int),
        ),
    decreases count,
{
    let all = payloads[offset + payload].slices@;
    if count > 0 {
        lemma_one_handed_over(payloads, offset, payload, (count - 1) as nat);
        assert(slices_of(payload, count).drop_last() =~= slices_of(payload, (count - 1) as nat));
        assert(all.take(count as int).drop_last() =~= all.take(count - 1));
    }
}

/// A planned segmented send hands the kernel its datagrams in a row: the bytes of
/// the listed slices, in the order of the list, are those of the datagrams one
/// after the other.
pub proof fn planned_sends_carry_the_datagrams(
    batch: PayloadBatch,
    offset: int,
    n: nat,
    slices: Seq<GsoSlice>,
)
    requires
        0 <= offset,
        offset + n <= batch.payloads@.len(),
        n <= usize::MAX,
        gso_slices(batch.shapes(), offset, n) == Ok::<Seq<GsoSlice>, Seq<char>>(slices),
    ensures
        bytes_handed_over(batch.payloads@, offset, slices) == datagrams_in_a_row(
            batch.payloads@,
            offset,
            n,
        ),
        forall|g: int|
            0 <= g < slices.len() ==> (#[trigger] slices[g]).payload < n && slices[g].slice
                < batch.payloads@[offset + slices[g].payload].slices@.len(),
    decreases n,
{
    if n > 0 {
        let shapes = batch.shapes();
        let last = batch.payloads@[offset + n - 1];
        let count = shapes[offset + n - 1].slices.len();
        let before = gso_slices(shapes, offset, (n - 1) as nat)->Ok_0;
        planned_sends_carry_the_datagrams(batch, offset, (n - 1) as nat, before);
        let more = slices_of(n - 1, count);
        lemma_handed_over_in_parts(batch.payloads@, offset, before, more);
        lemma_one_handed_over(batch.payloads@, offset, n - 1, count);
        assert(last.slices@.take(count as int) =~= last.slices@);
        assert forall|g: int| 0 <= g < slices.len() implies (#[trigger] slices[g]).payload < n
            && slices[g].slice < batch.payloads@[offset + slices[g].payload].slices@.len() by {
            if g < before.len() {
                assert(slices[g] == before[g]);
            } else {
                assert(slices[g] == more[g - before.len()]);
            }
        }
    }
}

/// The bytes of datagrams in a row: a single one is its slices in a row, and those
/// of two runs follow each other.
pub proof fn datagrams_follow_each_other(payloads: Seq<Payload>, offset: int, n: nat, m: nat)
    ensures
        datagrams_in_a_row(payloads, offset, 1) == joined_slices(payloads[offset].slices@),
        datagrams_in_a_row(payloads, offset, n + m) == datagrams_in_a_row(payloads, offset, n)
            + datagrams_in_a_row(payloads, offset + n, m),
    decreases m,
{
    let row = |o: int, k: nat| datagrams_in_a_row(payloads, o, k);
    assert(row(offset, 0) + joined_slices(payloads[offset].slices@) =~= joined_slices(
        payloads[offset].slices@,
    ));
    assert(row(offset, 1) == row(offset, 0) + joined_slices(payloads[offset].slices@));
    if m == 0 {
        assert(row(offset, n) + row(offset + n, 0) =~= row(offset, n));
    } else {
        datagrams_follow_each_other(payloads, offset, n, (m - 1) as nat);
        let last = joined_slices(payloads[offset + n + m - 1].slices@);
        assert(row(offset, n) + row(offset + n, (m - 1) as nat) + last =~= row(offset, n) + (row(
            offset + n,
            (m - 1) as nat,
        ) + last));
    }
}

/// The lengths of a datagram's slices are added up.
pub proof fn slice_lengths_are_added(a: usize, b: usize)
    ensures
        slice_total(seq![a], 1) == a,
        a + b <= usize::MAX ==> slice_total(seq![a, b], 2) == a + b,
        a + b > usize::MAX ==> slice_total(seq![a, b], 2) == usize::MAX,
{
    assert(slice_total(seq![a], 0) == 0);
    assert(slice_total(seq![a, b], 0) == 0);
    assert(slice_total(seq![a, b], 1) == a);
}

/// Whether a datagram is well formed: it has one slice or two, which are as long
/// as it is.
pub open spec fn well_formed_shape(shape: PayloadShape) -> bool {
    ||| shape.slices.len() == 1 && shape.slices[0] == shape.len
    ||| shape.slices.len() == 2 && (shape.slices[0] + shape.slices[1] == shape.len || (
    shape.slices[0] + shape.slices[1] > usize::MAX && shape.len == usize::MAX))
}

/// A datagram can be sent exactly where it is well formed.
pub proof fn well_formed_datagrams_can_be_sent(shape: PayloadShape)
    ensures
        shape_refusal(shape) is None <==> well_formed_shape(shape),
{
    if shape.slices.len() == 1 {
        assert(shape.slices =~= seq![shape.slices[0]]);
        slice_lengths_are_added(shape.slices[0], 0);
    } else if shape.slices.len() == 2 {
        assert(shape.slices =~= seq![shape.slices[0], shape.slices[1]]);
        slice_lengths_are_added(shape.slices[0], shape.slices[1]);
    }
}

/// A batched send is refused exactly where one of its datagrams is not well
/// formed, with what is wrong with the first such one.
pub proof fn one_bad_datagram_refuses_the_batch(
    shapes: Seq<PayloadShape>,
    offset: int,
    n: nat,
    bad: int,
)
    requires
        0 <= bad <= n,
        forall|i: int| 0 <= i < bad ==> well_formed_shape(#[trigger] shapes[offset + i]),
    ensures
        bad == n ==> batch_refusal(shapes, offset, n) is None,
        bad < n && !well_formed_shape(shapes[offset + bad]) ==> batch_refusal(shapes, offset, n)
            is Some && batch_refusal(shapes, offset, n) == shape_refusal(shapes[offset + bad]),
    decreases n,
{
    if n > 0 {
        well_formed_datagrams_can_be_sent(shapes[offset + (n - 1)]);
        if bad == n {
            one_bad_datagram_refuses_the_batch(shapes, offset, (n - 1) as nat, n - 1);
            assert(well_formed_shape(shapes[offset + (n - 1)]));
        } else {
            one_bad_datagram_refuses_the_batch(shapes, offset, (n - 1) as nat, bad);
        }
    }
}

/// A segmented send can be planned exactly where each of its datagrams is well
/// formed, is not empty and is no longer than the first.
pub proof fn segmented_sends_can_be_planned(shapes: Seq<PayloadShape>, offset: int, n: nat)
    requires
        n <= 64,
    ensures
        gso_slices(shapes, offset, n) is Ok <==> forall|i: int|
            0 <= i < n ==> well_formed_shape(#[trigger] shapes[offset + i]) && 0 < shapes[offset
                + i].len <= shapes[offset].len,
        gso_slices(shapes, offset, n) matches Ok(slices) ==> n <= slices.len() <= 2 * n,
    decreases n,
{
    if n > 0 {
        segmented_sends_can_be_planned(shapes, offset, (n - 1) as nat);
        let shape = shapes[offset + (n - 1)];
        well_formed_datagrams_can_be_sent(shape);
        if gso_slices(shapes, offset, n) is Ok {
            assert forall|i: int| 0 <= i < n implies well_formed_shape(
                #[trigger] shapes[offset + i],
            ) && 0 < shapes[offset + i].len <= shapes[offset].len by {
                if i == n - 1 {
                    assert(shapes[offset + i] == shape);
                }
            }
        }
    }
}

/// The bytes of datagrams are added up: a single one has its own, and those of
/// two runs come together.
pub proof fn runs_add_up(shapes: Seq<PayloadShape>, offset: int, n: nat, m: nat)
    ensures
        run_len(shapes, offset, 0) == 0,
        run_len(shapes, offset, 1) == shapes[offset].len,
        run_len(shapes, offset, n + m) == run_len(shapes, offset, n) + run_len(
            shapes,
            offset + n,
            m,
        ),
    decreases m,
{
    assert(run_len(shapes, offset, 1) == run_len(shapes, offset, 0) + shapes[offset].len);
    if m > 0 {
        runs_add_up(shapes, offset, n, (m - 1) as nat);
    }
}

/// Datagrams can leave in one segmented send exactly where they are two to
/// sixty-four, all there and asked for, all but the last as long as the first,
/// the last not empty and no longer, and together no longer than a datagram can
/// be.
pub proof fn segmented_sends_are_of_equal_datagrams(
    shapes: Seq<PayloadShape>,
    offset: int,
    candidate: int,
    n: int,
)
    requires
        0 <= offset,
    ensures
        gso_fits(shapes, offset, candidate, n) <==> {
            &&& 2 <= n <= 64
            &&& n <= candidate
            &&& offset + n <= shapes.len()
            &&& 0 < shapes[offset].len <= 65_535
            &&& forall|i: int|
                0 <= i < n - 1 ==> (#[trigger] shapes[offset + i]).len == shapes[offset].len
            &&& 0 < shapes[offset + n - 1].len <= shapes[offset].len
            &&& (n - 1) * shapes[offset].len + shapes[offset + n - 1].len <= 65_527
        },
{
    if 2 <= n && forall|i: int|
        0 <= i < n - 1 ==> (#[trigger] shapes[offset + i]).len == shapes[offset].len {
        lemma_equal_run(shapes, offset, (n - 1) as nat);
        assert(run_len(shapes, offset, n as nat) == run_len(shapes, offset, (n - 1) as nat)
            + shapes[offset + n - 1].len);
    }
}

proof fn lemma_equal_run(shapes: Seq<PayloadShape>, offset: int, n: nat)
    requires
        forall|i: int| 0 <= i < n ==> (#[trigger] shapes[offset + i]).len == shapes[offset].len,
    ensures
        run_len(shapes, offset, n) == n * shapes[offset].len,
    decreases n,
{
    let len = shapes[offset].len as int;
    if n > 0 {
        lemma_equal_run(shapes, offset, (n - 1) as nat);
        assert(shapes[offset + (n - 1)].len == len);
        assert((n - 1) * len + len == n * len) by (nonlinear_arith);
    } else {
        assert(0 * len == 0) by (nonlinear_arith);
    }
}

/// One call takes all datagrams from `offset` on, but no more than it may.
pub proof fn calls_take_all_they_may(shapes: Seq<PayloadShape>, offset: int, count: usize)
    ensures
        call_width(shapes, offset) == if offset >= shapes.len() {
            0
        } else if shapes.len() - offset <= 256 {
            shapes.len() - offset
        } else {
            256
        },
        batch_limit(count) <= count,
        batch_limit(count) <= 256,
        batch_limit(count) == count || batch_limit(count) == 256,
{
}

/// Datagrams leave in a segmented send wherever two of them fit into one and the
/// kernel can segment, as many as fit, and all that are left leave in one batched
/// send otherwise.
pub proof fn segmentation_is_used_where_it_fits(
    shapes: Seq<PayloadShape>,
    offset: int,
    sent: int,
    gso_disabled: bool,
    method: SendMethod,
    k: int,
)
    requires
        is_chosen(shapes, offset, sent, gso_disabled, method),
    ensures
        ({
            let left = call_width(shapes, offset) - sent;
            let fits = |n: int| gso_fits(shapes, offset + sent, left, n);
            &&& left <= 0 <==> method is Nothing
            &&& gso_disabled ==> !(method is Segmented)
            &&& left > 0 && !gso_disabled && fits(k) ==> (method matches SendMethod::Segmented(n)
                && k <= n && fits(n as int))
            &&& method matches SendMethod::Batched(n) ==> n == left && (!gso_disabled ==> !fits(k))
        }),
{
}

/// What the kernel accepts of a send is what counts as sent: all datagrams of a
/// segmented send, and of a batched send as many as the kernel says. A send that
/// fails adds nothing, and is reported only where nothing was sent before it.
pub proof fn accepted_datagrams_are_counted(
    shapes: Seq<PayloadShape>,
    offset: int,
    sent: int,
    gso_disabled: bool,
    method: SendMethod,
    outcome: Option<usize>,
    progress: SendProgress,
)
    requires
        0 <= sent < call_width(shapes, offset),
        is_chosen(shapes, offset, sent, gso_disabled, method),
        progresses(call_width(shapes, offset), sent, method, outcome, progress),
    ensures
        outcome is None ==> if sent == 0 {
            progress is Failed
        } else {
            progress matches SendProgress::Finished { sent: total } && total == sent
        },
        outcome is Some ==> (method matches SendMethod::Segmented(n) ==> if sent + n < call_width(
            shapes,
            offset,
        ) {
            progress matches SendProgress::Continue { sent: total } && total == sent + n
        } else {
            progress matches SendProgress::Finished { sent: total } && total == sent + n
        }),
        outcome matches Some(accepted) ==> (method matches SendMethod::Batched(n) ==> (accepted <= n
            ==> (progress matches SendProgress::Finished { sent: total } && total == sent
            + accepted))),
{
}

/// The kernel cuts a segmented send back into the same datagrams: each begins
/// where the ones before it, all of the segment's length, end.
pub proof fn segments_line_up(
    shapes: Seq<PayloadShape>,
    offset: int,
    candidate: int,
    n: int,
    i: int,
)
    requires
        gso_fits(shapes, offset, candidate, n),
        0 <= i < n,
    ensures
        run_len(shapes, offset, i as nat) == i * shapes[offset].len,
    decreases i,
{
    if i > 0 {
        segments_line_up(shapes, offset, candidate, n, i - 1);
        assert(shapes[offset + (i - 1)].len == shapes[offset].len);
        let segment = shapes[offset].len as int;
        assert((i - 1) * segment + segment == i * segment) by (nonlinear_arith);
        assert(run_len(shapes, offset, i as nat) == run_len(shapes, offset, (i - 1) as nat)
            + segment);
    } else {
        assert(i * shapes[offset].len == 0) by (nonlinear_arith)
            requires
                i == 0,
        ;
    }
}

/// The kernel is given as many datagrams as the method says, and the slices of a
/// datagram are its own, in their order.
pub proof fn methods_say_how_many_leave(n: usize, payload: usize, count: usize, s: int)
    ensures
        asked_of(SendMethod::Nothing) == 0,
        asked_of(SendMethod::Segmented(n)) == n,
        asked_of(SendMethod::Batched(n)) == n,
        slices_of(payload as int, count as nat).len() == count,
        0 <= s < count ==> slices_of(payload as int, count as nat)[s].payload == payload
            && slices_of(payload as int, count as nat)[s].slice == s,
{
}

} // verus!
