//! Hidraw transport: which node is the dock, how feature reports are framed
//! for the kernel, and when a polled reply settles an exchange.

use vstd::prelude::*;
use vstd::string::*;

use crate::clock::MILLISECOND;
use crate::protocol;
use crate::protocol::{Rgb, CLASS_EXTENDED_MATRIX, CRC_INDEX, REPORT_LEN};
use crate::text;
use crate::text::{chars_of, contains, decimal_text, hex_text, parse_unsigned};

verus! {

broadcast use vstd::array::group_array_axioms;

pub const RAZER_VENDOR_ID: u16 = 0x1532;

pub const MOUSE_DOCK_PRO_PRODUCT_ID: u16 = 0x00A4;

pub const DOCK_INTERFACE: u8 = 0;

// The firmware writes a status code into byte 0 of the response once it has
// processed a request (and, for mouse queries, completed the RF round-trip).
// We poll for it rather than sleeping a fixed worst-case interval: replies are
// usually ready within a few milliseconds, but a sleeping/absent mouse can take
// longer or never answer.
pub const RESPONSE_TIMEOUT: u64 = 100 * MILLISECOND;

pub const RESPONSE_POLL_INTERVAL: u64 = 2 * MILLISECOND;

// Response status byte (`response[0]`) values used by the Razer firmware.
pub const STATUS_NEW: u8 = 0x00;  // not processed yet

pub const STATUS_BUSY: u8 = 0x01;  // accepted, still working (RF round-trip pending)

pub const STATUS_OK: u8 = 0x02;  // completed, payload valid

// ---------- Kernel interface ----------

/// The kernel's `_IOC(dir, type, nr, size)`.
pub open spec fn ioc(dir: u64, ty: u64, nr: u64, size: u64) -> u64 {
    (dir << 30) | (ty << 8) | nr | (size << 16)
}

/// `HIDIOCSFEATURE(len)`: `_IOC(_IOC_WRITE|_IOC_READ, 'H', 0x06, len)`.
pub fn hidioc_set_feature(len: usize) -> (r: u64)
    ensures
        r == ioc(3, 0x48, 0x06, len as u64),
{
    (3u64 << 30) | (0x48u64 << 8) | 0x06 | ((len as u64) << 16)
}

/// `HIDIOCGFEATURE(len)`: `_IOC(_IOC_WRITE|_IOC_READ, 'H', 0x07, len)`.
pub fn hidioc_get_feature(len: usize) -> (r: u64)
    ensures
        r == ioc(3, 0x48, 0x07, len as u64),
{
    (3u64 << 30) | (0x48u64 << 8) | 0x07 | ((len as u64) << 16)
}

/// The hidraw buffer of a report: report id 0, then the 90 bytes.
pub open spec fn framed(report: Seq<u8>) -> Seq<u8> {
    seq![0u8] + report
}

/// The ioctl buffer that sends `report`. The kernel strips the report id.
pub fn feature_buffer(report: &[u8; REPORT_LEN]) -> (r: [u8; 91])
    ensures
        r@ == framed(report@),
{
    let mut buf = [0u8;91];
    let mut i: usize = 0;
    while i < REPORT_LEN
        invariant
            i <= REPORT_LEN,
            buf@[0] == 0,
            forall|k: int| 0 <= k < i ==> #[trigger] report@[k] == buf@[k + 1],
        decreases REPORT_LEN - i,
    {
        buf[i + 1] = report[i];
        i = i + 1;
    }
    proof {
        assert forall|k: int| 1 <= k < 91 implies buf@[k] == framed(report@)[k] by {
            assert(report@[k - 1] == buf@[k - 1 + 1]);
        }
        assert(buf@ =~= framed(report@));
    }
    buf
}

/// The report in an ioctl buffer that the kernel filled.
pub fn feature_payload(buf: &[u8; 91]) -> (r: [u8; REPORT_LEN])
    ensures
        r@ == buf@.skip(1),
{
    let mut response = [0u8;REPORT_LEN];
    let mut i: usize = 0;
    while i < REPORT_LEN
        invariant
            i <= REPORT_LEN,
            forall|k: int| 0 <= k < i ==> #[trigger] response@[k] == buf@[k + 1],
        decreases REPORT_LEN - i,
    {
        response[i] = buf[i + 1];
        i = i + 1;
    }
    proof {
        assert(response@ =~= buf@.skip(1));
    }
    response
}

// ---------- Exchange ----------

/// Outcome of inspecting a response's status byte (`response[0]`).
#[derive(Debug, Clone, Copy, PartialEq, Eq, Structural)]
pub enum ResponseStatus {
    /// Completed successfully; the payload is valid.
    Ready,
    /// Still being processed: keep polling until the deadline.
    Pending,
    /// Terminal failure (e.g. unsupported, no RF response); carries the raw code.
    Failed(u8),
}

pub open spec fn response_status(status: u8) -> ResponseStatus {
    if status == STATUS_OK {
        ResponseStatus::Ready
    } else if status == STATUS_NEW || status == STATUS_BUSY {
        ResponseStatus::Pending
    } else {
        ResponseStatus::Failed(status)
    }
}

pub fn classify_response_status(status: u8) -> (r: ResponseStatus)
    ensures
        r == response_status(status),
{
    if status == STATUS_OK {
        ResponseStatus::Ready
    } else if status == STATUS_NEW || status == STATUS_BUSY {
        ResponseStatus::Pending
    } else {
        ResponseStatus::Failed(status)
    }
}

/// Why an exchange ended without a payload.
#[derive(Debug, Clone, Copy, PartialEq, Eq, Structural)]
pub enum ExchangeError {
    /// Until the deadline only replies to other requests were read.
    Foreign,
    /// The firmware was still at work at the deadline.
    Unanswered,
    /// The firmware refused the request, or got no RF reply.
    Status(u8),
}

impl ExchangeError {
    pub open spec fn text(self) -> Seq<char> {
        match self {
            ExchangeError::Foreign =>
                "response belongs to another request (is another razerd instance running?)"@,
            ExchangeError::Unanswered => "device did not answer within 100ms"@,
            ExchangeError::Status(status) => "device returned error status 0x"@ + text::hex(
                status as nat,
                2,
                false,
            ),
        }
    }

    pub fn to_string(&self) -> (r: String)
        ensures
            r@ == self.text(),
    {
        match self {
            ExchangeError::Foreign =>
                "response belongs to another request (is another razerd instance running?)".to_owned(),
            ExchangeError::Unanswered => "device did not answer within 100ms".to_owned(),
            ExchangeError::Status(status) => {
                let mut r = "device returned error status 0x".to_owned();
                r.append(hex_text(*status as u64, 2, false).as_str());
                r
            },
        }
    }
}

/// What to do after a read.
pub enum ExchangeStep {
    /// The reply is ours and complete.
    Answered([u8; REPORT_LEN]),
    /// Wait a poll interval and read again.
    Poll,
    Failed(ExchangeError),
}

/// The firmware echoes data_size/class/cmd (bytes 5..8) in its response.
pub open spec fn echoes(request: Seq<u8>, response: Seq<u8>) -> bool {
    response.subrange(5, 8) == request.subrange(5, 8)
}

/// What a response read before (`in_time`) or at the deadline amounts to.
pub open spec fn exchange_next(
    request: [u8; REPORT_LEN],
    response: [u8; REPORT_LEN],
    in_time: bool,
) -> ExchangeStep {
    if !echoes(request@, response@) {
        if in_time {
            ExchangeStep::Poll
        } else {
            ExchangeStep::Failed(ExchangeError::Foreign)
        }
    } else {
        match response_status(response@[0]) {
            ResponseStatus::Ready => ExchangeStep::Answered(response),
            ResponseStatus::Pending => if in_time {
                ExchangeStep::Poll
            } else {
                ExchangeStep::Failed(ExchangeError::Unanswered)
            },
            ResponseStatus::Failed(status) => ExchangeStep::Failed(ExchangeError::Status(status)),
        }
    }
}

/// A request that was sent and whose reply is polled for.
#[derive(Debug, Clone, Copy)]
pub struct Exchange {
    pub request: [u8; REPORT_LEN],
    pub deadline: u64,
}

impl Exchange {
    /// `request` went out at `sent_at`.
    pub fn begin(request: [u8; REPORT_LEN], sent_at: u64) -> (r: Self)
        requires
            sent_at + RESPONSE_TIMEOUT <= u64::MAX,
        ensures
            r.request == request,
            r.deadline == sent_at + RESPONSE_TIMEOUT,
            r.deadline == sent_at + 100 * MILLISECOND,
    {
        Exchange { request, deadline: sent_at + RESPONSE_TIMEOUT }
    }

    /// `response` was read at `now`. A response that does not echo the request
    /// belongs to someone else's transaction, e.g. a concurrent `--watch`
    /// re-applying the color, and counts as a pending read.
    pub fn on_response(&self, response: &[u8; REPORT_LEN], now: u64) -> (r: ExchangeStep)
        ensures
            r == exchange_next(self.request, *response, now < self.deadline),
    {
        let same = response[5] == self.request[5] && response[6] == self.request[6] && response[7]
            == self.request[7];
        proof {
            let a = response@.subrange(5, 8);
            let b = self.request@.subrange(5, 8);
            assert(a[0] == response@[5] && a[1] == response@[6] && a[2] == response@[7]);
            assert(b[0] == self.request@[5] && b[1] == self.request@[6] && b[2]
                == self.request@[7]);
            if same {
                assert(a =~= b);
            }
        }
        if !same {
            return if now < self.deadline {
                ExchangeStep::Poll
            } else {
                ExchangeStep::Failed(ExchangeError::Foreign)
            };
        }
        match classify_response_status(response[0]) {
            ResponseStatus::Ready => ExchangeStep::Answered(*response),
            ResponseStatus::Pending => if now < self.deadline {
                ExchangeStep::Poll
            } else {
                ExchangeStep::Failed(ExchangeError::Unanswered)
            },
            ResponseStatus::Failed(status) => ExchangeStep::Failed(ExchangeError::Status(status)),
        }
    }
}

// ---------- Discovery ----------

/// What sysfs tells of one hidraw node.
pub struct HidrawNode {
    /// The node's file name, as bytes.
    pub name: Vec<u8>,
    /// The contents of its `device/uevent`, if readable as text.
    pub uevent: Option<String>,
    /// The name of the USB interface directory above its device, if readable
    /// as text.
    pub usb_dir: Option<String>,
}

/// `a` sorts before `b`: byte by byte, a prefix before its extensions.
pub open spec fn sorts_before(a: Seq<u8>, b: Seq<u8>) -> bool
    decreases a.len(),
{
    if b.len() == 0 {
        false
    } else if a.len() == 0 {
        true
    } else if a[0] != b[0] {
        a[0] < b[0]
    } else {
        sorts_before(a.drop_first(), b.drop_first())
    }
}

/// The kernel's `HID_ID` of a USB device: bus type 3, then both ids as eight
/// upper-case hexadecimal digits.
pub open spec fn hid_id(vendor_id: u16, product_id: u16) -> Seq<char> {
    "0003:"@ + text::hex(vendor_id as nat, 8, true) + ":"@ + text::hex(product_id as nat, 8, true)
}

/// What stands behind the last dot.
pub open spec fn after_last_dot(s: Seq<char>) -> Option<Seq<char>>
    decreases s.len(),
{
    if s.len() == 0 {
        None
    } else if s.last() == '.' {
        Some(Seq::empty())
    } else {
        match after_last_dot(s.drop_last()) {
            Some(tail) => Some(tail.push(s.last())),
            None => None,
        }
    }
}

/// The interface number in the name of a USB interface directory, such as
/// `3-2:1.0`.
pub open spec fn interface_number(dir: Seq<char>) -> Option<nat> {
    match after_last_dot(dir) {
        Some(tail) => text::unsigned(tail, 255),
        None => None,
    }
}

impl HidrawNode {
    /// This is the node of the given interface of the given USB device.
    pub open spec fn fits(self, vendor_id: u16, product_id: u16, interface: u8) -> bool {
        &&& self.uevent matches Some(uevent)
        &&& text::contains_text(uevent@, hid_id(vendor_id, product_id))
        &&& self.usb_dir matches Some(dir)
        &&& interface_number(dir@) == Some(interface as nat)
    }
}

/// Extract the USB interface number from the name of the interface directory,
/// which looks like `3-2:1.N` where `N` is the interface number.
pub fn hidraw_interface_number(usb_dir: &str) -> (r: Option<u8>)
    ensures
        match r {
            Some(n) => interface_number(usb_dir@) == Some(n as nat),
            None => interface_number(usb_dir@) is None,
        },
{
    let chars = chars_of(usb_dir);
    let mut tail: Vec<char> = Vec::new();
    let mut found = false;
    let mut i: usize = 0;
    while i < chars.len()
        invariant
            i <= chars@.len(),
            chars@ == usb_dir@,
            after_last_dot(chars@.take(i as int)) == (if found {
                Some(tail@)
            } else {
                None
            }),
        decreases chars@.len() - i,
    {
        let c = chars[i];
        proof {
            assert(chars@.take(i + 1).drop_last() =~= chars@.take(i as int));
        }
        if c == '.' {
            found = true;
            tail = Vec::new();
            proof {
                assert(tail@ =~= Seq::empty());
            }
        } else {
            tail.push(c);
        }
        i = i + 1;
    }
    proof {
        assert(chars@.take(i as int) =~= usb_dir@);
    }
    if !found {
        return None;
    }
    match parse_unsigned(&tail, 255) {
        Some(n) => Some(n as u8),
        None => None,
    }
}

fn name_sorts_before(a: &Vec<u8>, b: &Vec<u8>) -> (r: bool)
    ensures
        r == sorts_before(a@, b@),
{
    let mut i: usize = 0;
    proof {
        assert(a@.skip(0) =~= a@);
        assert(b@.skip(0) =~= b@);
    }
    while i < a.len() && i < b.len() && a[i] == b[i]
        invariant
            i <= a@.len(),
            i <= b@.len(),
            sorts_before(a@, b@) == sorts_before(a@.skip(i as int), b@.skip(i as int)),
        decreases a@.len() - i,
    {
        proof {
            assert(a@.skip(i as int).drop_first() =~= a@.skip(i + 1));
            assert(b@.skip(i as int).drop_first() =~= b@.skip(i + 1));
        }
        i = i + 1;
    }
    if i >= b.len() {
        false
    } else if i >= a.len() {
        true
    } else {
        a[i] < b[i]
    }
}

proof fn lemma_sorts_before_transitive(a: Seq<u8>, b: Seq<u8>, c: Seq<u8>)
    requires
        sorts_before(a, b),
        sorts_before(b, c),
    ensures
        sorts_before(a, c),
    decreases a.len(),
{
    if a.len() > 0 && a[0] == b[0] && b[0] == c[0] {
        lemma_sorts_before_transitive(a.drop_first(), b.drop_first(), c.drop_first());
    }
}

fn hid_id_text(vendor_id: u16, product_id: u16) -> (r: String)
    ensures
        r@ == hid_id(vendor_id, product_id),
{
    let mut r = "0003:".to_owned();
    r.append(hex_text(vendor_id as u64, 8, true).as_str());
    r.append(":");
    r.append(hex_text(product_id as u64, 8, true).as_str());
    r
}

fn node_is(node: &HidrawNode, id: &str, interface: u8) -> (r: bool)
    ensures
        r == ({
            &&& node.uevent matches Some(uevent)
            &&& text::contains_text(uevent@, id@)
            &&& node.usb_dir matches Some(dir)
            &&& interface_number(dir@) == Some(interface as nat)
        }),
{
    match &node.uevent {
        None => false,
        Some(uevent) => if !contains(uevent.as_str(), id) {
            false
        } else {
            match &node.usb_dir {
                None => false,
                Some(dir) => match hidraw_interface_number(dir.as_str()) {
                    Some(n) => n == interface,
                    None => false,
                },
            }
        },
    }
}

/// The report that no node fits.
pub open spec fn no_hidraw_text(vendor_id: u16, product_id: u16, interface: u8) -> Seq<char> {
    "no hidraw for "@ + text::hex(vendor_id as nat, 4, false) + ":"@ + text::hex(
        product_id as nat,
        4,
        false,
    ) + " interface "@ + text::decimal(interface as nat) + " — device not connected?"@
}

/// Find the hidraw node for the given USB vendor/product/interface among
/// `nodes`: of those that fit, the one whose name sorts first.
pub fn find_hidraw(
    vendor_id: u16,
    product_id: u16,
    interface: u8,
    nodes: &Vec<HidrawNode>,
) -> (r: Result<usize, String>)
    ensures
        match r {
            Ok(i) => {
                &&& i < nodes@.len()
                &&& nodes@[i as int].fits(vendor_id, product_id, interface)
                &&& forall|j: int|
                    0 <= j < nodes@.len() && #[trigger] nodes@[j].fits(
                        vendor_id,
                        product_id,
                        interface,
                    ) && j != i ==> !sorts_before(nodes@[j].name@, nodes@[i as int].name@) && (
                    nodes@[j].name@ == nodes@[i as int].name@ ==> i < j)
            },
            Err(message) => {
                &&& message@ == no_hidraw_text(vendor_id, product_id, interface)
                &&& forall|j: int|
                    0 <= j < nodes@.len() ==> !#[trigger] nodes@[j].fits(
                        vendor_id,
                        product_id,
                        interface,
                    )
            },
        },
{
    let id = hid_id_text(vendor_id, product_id);
    let mut best: Option<usize> = None;
    let mut k: usize = 0;
    while k < nodes.len()
        invariant
            k <= nodes@.len(),
            id@ == hid_id(vendor_id, product_id),
            match best {
                Some(i) => {
                    &&& i < k
                    &&& nodes@[i as int].fits(vendor_id, product_id, interface)
                    &&& forall|j: int|
                        0 <= j < k && #[trigger] nodes@[j].fits(vendor_id, product_id, interface) && j
                            != i ==> !sorts_before(nodes@[j].name@, nodes@[i as int].name@) && (
                        nodes@[j].name@ == nodes@[i as int].name@ ==> i < j)
                },
                None => forall|j: int|
                    0 <= j < k ==> !#[trigger] nodes@[j].fits(vendor_id, product_id, interface),
            },
        decreases nodes@.len() - k,
    {
        if node_is(&nodes[k], id.as_str(), interface) {
            match best {
                None => {
                    best = Some(k);
                },
                Some(i) => if name_sorts_before(&nodes[k].name, &nodes[i].name) {
                    proof {
                        let new = nodes@[k as int].name@;
                        let old_best = nodes@[i as int].name@;
                        lemma_sorts_before_irreflexive(old_best);
                        assert forall|j: int|
                            0 <= j < k + 1 && #[trigger] nodes@[j].fits(
                                vendor_id,
                                product_id,
                                interface,
                            ) && j != k implies !sorts_before(nodes@[j].name@, new) && (
                        nodes@[j].name@ == new ==> k < j) by {
                            if sorts_before(nodes@[j].name@, new) {
                                lemma_sorts_before_transitive(nodes@[j].name@, new, old_best);
                            }
                        }
                    }
                    best = Some(k);
                },
            }
        }
        k = k + 1;
    }
    match best {
        Some(i) => Ok(i),
        None => {
            let mut message = "no hidraw for ".to_owned();
            message.append(hex_text(vendor_id as u64, 4, false).as_str());
            message.append(":");
            message.append(hex_text(product_id as u64, 4, false).as_str());
            message.append(" interface ");
            message.append(decimal_text(interface as u64).as_str());
            message.append(" — device not connected?");
            Err(message)
        },
    }
}

proof fn lemma_sorts_before_irreflexive(a: Seq<u8>)
    ensures
        !sorts_before(a, a),
    decreases a.len(),
{
    if a.len() > 0 {
        lemma_sorts_before_irreflexive(a.drop_first());
    }
}

// ---------- Laws ----------

/// A payload is handed on exactly when the response echoes the request and
/// says that it is complete, and it is that response.
pub proof fn law_exchange_returns_only_its_own_completed_reply(
    request: [u8; REPORT_LEN],
    response: [u8; REPORT_LEN],
    in_time: bool,
)
    ensures
        exchange_next(request, response, in_time) is Answered <==> echoes(request@, response@)
            && response@[0] == STATUS_OK,
        exchange_next(request, response, in_time) matches ExchangeStep::Answered(payload)
            ==> payload == response,
{
}

/// No read at or after the deadline is followed by another one.
pub proof fn law_exchange_ends_by_its_deadline(
    request: [u8; REPORT_LEN],
    response: [u8; REPORT_LEN],
)
    ensures
        !(exchange_next(request, response, false) is Poll),
{
}

/// An error status on a response that echoes the request is reported at once,
/// with its code, however much time is left.
pub proof fn law_error_status_is_reported_at_once(
    request: [u8; REPORT_LEN],
    response: [u8; REPORT_LEN],
    in_time: bool,
)
    requires
        echoes(request@, response@),
        response@[0] > STATUS_OK,
    ensures
        exchange_next(request, response, in_time) == ExchangeStep::Failed(
            ExchangeError::Status(response@[0]),
        ),
{
}

/// What an exchange comes to over a series of reads, each with whether it was
/// made before the deadline; `Poll` when none of them settles it.
pub open spec fn exchange_outcome(
    request: [u8; REPORT_LEN],
    reads: Seq<([u8; REPORT_LEN], bool)>,
) -> ExchangeStep
    decreases reads.len(),
{
    if reads.len() == 0 {
        ExchangeStep::Poll
    } else {
        match exchange_next(request, reads[0].0, reads[0].1) {
            ExchangeStep::Poll => exchange_outcome(request, reads.drop_first()),
            step => step,
        }
    }
}

/// Responses to other requests, and unfinished ones, that are read before the
/// deadline leave the outcome of an exchange as it is without them.
pub proof fn law_early_noise_does_not_change_the_outcome(
    request: [u8; REPORT_LEN],
    noise: Seq<([u8; REPORT_LEN], bool)>,
    rest: Seq<([u8; REPORT_LEN], bool)>,
)
    requires
        forall|i: int|
            0 <= i < noise.len() ==> (#[trigger] noise[i]).1 && (!echoes(request@, noise[i].0@)
                || noise[i].0@[0] == STATUS_NEW || noise[i].0@[0] == STATUS_BUSY),
    ensures
        exchange_outcome(request, noise + rest) == exchange_outcome(request, rest),
    decreases noise.len(),
{
    if noise.len() == 0 {
        assert(noise + rest =~= rest);
    } else {
        assert((noise + rest)[0] == noise[0]);
        assert(exchange_next(request, noise[0].0, noise[0].1) is Poll);
        assert((noise + rest).drop_first() =~= noise.drop_first() + rest);
        law_early_noise_does_not_change_the_outcome(request, noise.drop_first(), rest);
    }
}

/// A response to a color report, the dock's or the mouse's, never passes for
/// the reply to a query: no query of another class is echoed by it.
pub proof fn law_color_traffic_is_no_reply_to_a_query(
    tx_id: u8,
    class: u8,
    cmd: u8,
    data_size: u8,
    args: Seq<u8>,
    color: Rgb,
    response: Seq<u8>,
)
    requires
        8 + args.len() <= CRC_INDEX,
        class != CLASS_EXTENDED_MATRIX,
        echoes(protocol::dock_color(color), response) || echoes(
            protocol::mouse_color(color),
            response,
        ),
    ensures
        !echoes(protocol::query_report(tx_id, class, cmd, data_size, args), response),
{
    let query = protocol::query_report(tx_id, class, cmd, data_size, args);
    assert(query.subrange(5, 8)[1] == class);
    assert(protocol::dock_color(color).subrange(5, 8)[1] == CLASS_EXTENDED_MATRIX);
    assert(protocol::mouse_color(color).subrange(5, 8)[1] == CLASS_EXTENDED_MATRIX);
}

/// A framed report gives the report back.
pub proof fn law_frame_gives_the_report_back(report: Seq<u8>)
    ensures
        framed(report).skip(1) == report,
{
    assert(framed(report).skip(1) =~= report);
}

/// The request numbers of buffers that fit the kernel's 14-bit size field, as
/// arithmetic.
pub proof fn law_ioctl_numbers(len: u64)
    requires
        len < 0x4000,
    ensures
        ioc(3, 0x48, 0x06, len) == 0xC000_4806 + 0x1_0000 * len,
        ioc(3, 0x48, 0x07, len) == 0xC000_4807 + 0x1_0000 * len,
{
    assert(len < 0x4000 ==> ((3u64 << 30) | (0x48u64 << 8) | 0x06 | (len << 16)) == 0xC000_4806
        + 0x1_0000 * len) by (bit_vector);
    assert(len < 0x4000 ==> ((3u64 << 30) | (0x48u64 << 8) | 0x07 | (len << 16)) == 0xC000_4807
        + 0x1_0000 * len) by (bit_vector);
}

/// What a read amounts to, told from the bytes: size, class and command, bytes 5, 6
/// and 7, must be those of the request, and byte 0 says whether the reply is
/// complete (2), not yet (0 or 1), or failed (anything else).
pub proof fn law_reads_are_judged_by_their_bytes(
    request: [u8; REPORT_LEN],
    response: [u8; REPORT_LEN],
    in_time: bool,
)
    ensures
        ({
            let ours = response@[5] == request@[5] && response@[6] == request@[6] && response@[7]
                == request@[7];
            let status = response@[0];
            let step = exchange_next(request, response, in_time);
            &&& ours && status == 2 ==> step == ExchangeStep::Answered(response)
            &&& ours && status > 2 ==> step == ExchangeStep::Failed(ExchangeError::Status(status))
            &&& ours && status < 2 && in_time ==> step is Poll
            &&& ours && status < 2 && !in_time ==> step == ExchangeStep::Failed(
                ExchangeError::Unanswered,
            )
            &&& !ours && in_time ==> step is Poll
            &&& !ours && !in_time ==> step == ExchangeStep::Failed(ExchangeError::Foreign)
        }),
{
    let a = response@.subrange(5, 8);
    let b = request@.subrange(5, 8);
    assert(a[0] == response@[5] && a[1] == response@[6] && a[2] == response@[7]);
    assert(b[0] == request@[5] && b[1] == request@[6] && b[2] == request@[7]);
    if response@[5] == request@[5] && response@[6] == request@[6] && response@[7] == request@[7] {
        assert(a =~= b);
    }
}

/// The status of a reply: 2 is complete, 0 and 1 are not yet, all else has failed
/// with that code.
pub proof fn law_status_codes(status: u8)
    ensures
        status == 2 ==> response_status(status) is Ready,
        status < 2 ==> response_status(status) is Pending,
        status > 2 ==> response_status(status) == ResponseStatus::Failed(status),
{
}

/// A failed exchange is told apart by its words; a status by its code in two
/// hexadecimal digits.
pub proof fn law_failures_are_worded(status: u8)
    ensures
        ExchangeError::Status(status).text() == "device returned error status 0x"@ + seq![
            text::digit(status as int / 16, false),
            text::digit(status as int % 16, false),
        ],
        ExchangeError::Unanswered.text() == "device did not answer within 100ms"@,
        ExchangeError::Foreign.text()
            == "response belongs to another request (is another razerd instance running?)"@,
{
    reveal_with_fuel(text::hex, 3);
    assert(text::hex(status as nat, 2, false) =~= seq![
        text::digit(status as int / 16, false),
        text::digit(status as int % 16, false),
    ]);
}

/// A frame is a zero and then the report, byte by byte.
pub proof fn law_frame_is_report_id_zero_and_the_report(report: Seq<u8>)
    requires
        report.len() == 90,
    ensures
        framed(report).len() == 91,
        framed(report)[0] == 0,
        forall|i: int| 0 <= i < 90 ==> framed(report)[i + 1] == #[trigger] report[i],
{
}

/// The id of a device in sysfs: the USB bus, then vendor and product in eight
/// digits each, so that different devices have different ids.
pub proof fn law_ids_tell_devices_apart(
    vendor: u16,
    product: u16,
    other_vendor: u16,
    other_product: u16,
)
    ensures
        hid_id(vendor, product).len() == 22,
        hid_id(vendor, product).take(5) == "0003:"@,
        hid_id(vendor, product).subrange(5, 13) == text::hex(vendor as nat, 8, true),
        hid_id(vendor, product)[13] == ':',
        hid_id(vendor, product).skip(14) == text::hex(product as nat, 8, true),
        hid_id(vendor, product) == hid_id(other_vendor, other_product) ==> vendor == other_vendor
            && product == other_product,
{
    lemma_id_parts(vendor, product);
    lemma_id_parts(other_vendor, other_product);
    if hid_id(vendor, product) == hid_id(other_vendor, other_product) {
        text::law_hex_tells_numbers_apart(vendor as nat, other_vendor as nat, 8, true);
        text::law_hex_tells_numbers_apart(product as nat, other_product as nat, 8, true);
    }
}

proof fn lemma_id_parts(vendor: u16, product: u16)
    ensures
        hid_id(vendor, product).len() == 22,
        hid_id(vendor, product).take(5) == "0003:"@,
        hid_id(vendor, product).subrange(5, 13) == text::hex(vendor as nat, 8, true),
        hid_id(vendor, product)[13] == ':',
        hid_id(vendor, product).skip(14) == text::hex(product as nat, 8, true),
{
    reveal_strlit("0003:");
    reveal_strlit(":");
    text::law_hex_has_its_digits(vendor as nat, 8, true);
    text::law_hex_has_its_digits(product as nat, 8, true);
    let id = hid_id(vendor, product);
    assert("0003:"@.len() == 5 && ":"@.len() == 1);
    assert(id.take(5) =~= "0003:"@);
    assert(id.subrange(5, 13) =~= text::hex(vendor as nat, 8, true));
    assert(id.skip(14) =~= text::hex(product as nat, 8, true));
}

/// The interface is the number behind the last dot, if it is one of at most 255.
pub proof fn law_interface_stands_behind_the_last_dot(dir: Seq<char>, tail: Seq<char>)
    requires
        !tail.contains('.'),
    ensures
        interface_number(dir + seq!['.'] + tail) == text::unsigned(tail, 255),
        interface_number(tail) is None,
{
    lemma_after_last_dot(dir, tail);
}

/// A directory whose name ends in a dot and a number of at most 255 is that
/// interface.
pub proof fn law_interface_reads_back(dir: Seq<char>, n: u8)
    ensures
        interface_number(dir + seq!['.'] + text::decimal(n as nat)) == Some(n as nat),
{
    let tail = text::decimal(n as nat);
    text::law_decimal_has_its_digits(n as nat);
    text::law_decimal_reads_back(n as nat, 255);
    assert(!tail.contains('.')) by {
        assert forall|i: int| 0 <= i < tail.len() implies tail[i] != '.' by {
            assert(text::is_digit(tail[i]));
        }
    }
    law_interface_stands_behind_the_last_dot(dir, tail);
}

proof fn lemma_after_last_dot(dir: Seq<char>, tail: Seq<char>)
    requires
        !tail.contains('.'),
    ensures
        after_last_dot(dir + seq!['.'] + tail) == Some(tail),
        after_last_dot(tail) is None,
    decreases tail.len(),
{
    let whole = dir + seq!['.'] + tail;
    if tail.len() == 0 {
        assert(whole.last() == '.');
        assert(tail =~= Seq::empty());
    } else {
        let rest = tail.drop_last();
        assert(!rest.contains('.')) by {
            if rest.contains('.') {
                let i = choose|i: int| 0 <= i < rest.len() && rest[i] == '.';
                assert(tail[i] == '.');
            }
        }
        lemma_after_last_dot(dir, rest);
        assert(tail.contains(tail.last())) by {
            assert(tail[tail.len() - 1] == tail.last());
        }
        assert(whole.drop_last() =~= dir + seq!['.'] + rest);
        assert(rest.push(tail.last()) =~= tail);
    }
}

/// Names are ordered by the first byte in which they differ, and a name comes
/// before those that it begins.
pub proof fn law_names_are_ordered_by_their_first_difference(
    common: Seq<u8>,
    a: Seq<u8>,
    b: Seq<u8>,
)
    ensures
        !sorts_before(common, common),
        b.len() > 0 ==> sorts_before(common, common + b) && !sorts_before(common + b, common),
        a.len() > 0 && b.len() > 0 && a[0] < b[0] ==> sorts_before(common + a, common + b)
            && !sorts_before(common + b, common + a),
    decreases common.len(),
{
    lemma_sorts_before_irreflexive(common);
    if common.len() == 0 {
        assert(common + a =~= a);
        assert(common + b =~= b);
    } else {
        law_names_are_ordered_by_their_first_difference(common.drop_first(), a, b);
        assert((common + a).drop_first() =~= common.drop_first() + a);
        assert((common + b).drop_first() =~= common.drop_first() + b);
    }
}

/// A node is the dock's if its description holds the device's id and its directory
/// ends in the interface, and not otherwise.
pub proof fn law_node_is_known_by_its_id_and_interface(
    node: HidrawNode,
    vendor: u16,
    product: u16,
    interface: u8,
)
    ensures
        node.uevent is None || node.usb_dir is None ==> !node.fits(vendor, product, interface),
        node.uevent is Some && node.usb_dir is Some ==> node.fits(vendor, product, interface) == (
        (exists|a: Seq<char>, b: Seq<char>|
            node.uevent->0@ == #[trigger] (a + hid_id(vendor, product) + b)) && interface_number(
            node.usb_dir->0@,
        ) == Some(interface as nat)),
{
    if node.uevent is Some {
        let id = hid_id(vendor, product);
        let uevent = node.uevent->0@;
        text::law_found_text_stands_between_the_rest(Seq::empty(), id, Seq::empty());
        if exists|a: Seq<char>, b: Seq<char>| uevent == #[trigger] (a + id + b) {
            let (a, b) = choose|a: Seq<char>, b: Seq<char>| uevent == #[trigger] (a + id + b);
            text::law_found_text_stands_between_the_rest(a, id, b);
        }
    }
}

/// A missing device is told by its ids in four digits each, and its interface.
pub proof fn law_missing_device_is_told(vendor: u16, product: u16, interface: u8)
    ensures
        no_hidraw_text(vendor, product, interface) == "no hidraw for "@ + text::hex(
            vendor as nat,
            4,
            false,
        ) + ":"@ + text::hex(product as nat, 4, false) + " interface "@ + text::decimal(
            interface as nat,
        ) + " — device not connected?"@,
{
}

} // verus!
