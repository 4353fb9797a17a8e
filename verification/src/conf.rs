//! What a beacon and a scanner are started with.

use crate::broadcaster::SLOWDOWN_FACTOR;
use crate::signature::{Signature, MAX_SIGNATURE_LENGTH};
use vstd::prelude::*;
use vstd::slice::slice_subrange;
use vstd::utf8::encode_utf8;

verus! {

/// The port a beacon listens on unless told otherwise.
pub const SERVER_PORT_DEFAULT: u16 = 1901;

/// The signature beacons accept and scanners send unless told otherwise. It
/// is shorter than the receive buffer.
pub const SIGNATURE_DEFAULT: &'static str = "ipdisbeacon";

/// The address a beacon listens on unless told otherwise: `0.0.0.0`.
pub const LISTENING_ADDR_DEFAULT: u32 = 0;

/// The port a scanner sends from and listens on unless told otherwise.
pub const SCANNER_PORT_DEFAULT: u16 = 1902;

/// The address a scanner sends to unless told otherwise: the limited
/// broadcast address `255.255.255.255`.
pub const BROADCAST_ADDR_DEFAULT: u32 = 0xFFFF_FFFF;

/// A second signature that beacons accept and scanners send unless told
/// otherwise, kept for the sake of scanners and beacons that know no other.
pub const EXTRA_SIGNATURE_DEFAULT: &'static str = "pang-supremacy-maritime-revoke-afterglow";

/// The time between two rounds of a scanner unless told otherwise, in
/// nanoseconds: one second.
pub const SCAN_PERIOD_DEFAULT: u64 = 1_000_000_000;

/// The byte that ends a line.
pub const LINE_FEED: u8 = 10;

/// The byte that may stand before the line feed and is then no part of the
/// line.
pub const CARRIAGE_RETURN: u8 = 13;

/// The bytes of each signature of a list.
pub open spec fn bytes_of(signatures: Seq<Signature>) -> Seq<Seq<u8>> {
    signatures.map_values(|signature: Signature| signature@)
}

/// The bytes of the signatures in use where none was chosen: the two
/// defaults, the current one first.
pub open spec fn default_signatures() -> Seq<Seq<u8>> {
    seq![encode_utf8(SIGNATURE_DEFAULT@), encode_utf8(EXTRA_SIGNATURE_DEFAULT@)]
}

/// Whether a list of signatures can be configured: it is not empty, and
/// none of them is longer than the protocol admits.
pub open spec fn signatures_admissible(signatures: Seq<Signature>) -> bool {
    &&& signatures.len() > 0
    &&& forall|i: int|
        0 <= i < signatures.len() ==> (#[trigger] signatures[i])@.len() <= MAX_SIGNATURE_LENGTH
}

/// Whether a list of signatures can be configured depends on their bytes
/// alone.
pub proof fn lemma_admissible_by_bytes(left: Seq<Signature>, right: Seq<Signature>)
    requires
        bytes_of(left) == bytes_of(right),
    ensures
        signatures_admissible(left) == signatures_admissible(right),
{
    assert(left.len() == bytes_of(left).len());
    assert(right.len() == bytes_of(right).len());
    assert forall|i: int|
        #![trigger left[i]]
        #![trigger right[i]]
        0 <= i < left.len() implies left[i]@ == right[i]@ by {
        assert(bytes_of(left)[i] == left[i]@);
        assert(bytes_of(right)[i] == right[i]@);
    }
}

/// Tells whether a list of signatures can be configured.
pub fn check_signatures(signatures: &[Signature]) -> (admissible: bool)
    ensures
        admissible == signatures_admissible(signatures@),
{
    if signatures.len() == 0 {
        return false;
    }
    let mut i: usize = 0;
    while i < signatures.len()
        invariant
            i <= signatures.len(),
            forall|j: int| 0 <= j < i ==> (#[trigger] signatures[j])@.len() <= MAX_SIGNATURE_LENGTH,
        decreases signatures.len() - i,
    {
        if !signatures[i].is_admissible() {
            return false;
        }
        i = i + 1;
    }
    true
}

/// Where the first line of a text ends: the place of its first line feed,
/// or the length of the text if it has none.
pub open spec fn line_end(bytes: Seq<u8>) -> int
    decreases bytes.len(),
{
    if bytes.len() == 0 || bytes[0] == LINE_FEED {
        0
    } else {
        1 + line_end(bytes.drop_first())
    }
}

/// A line without the carriage return that stood before its line feed.
pub open spec fn without_carriage_return(line: Seq<u8>) -> Seq<u8> {
    if line.len() > 0 && line.last() == CARRIAGE_RETURN {
        line.drop_last()
    } else {
        line
    }
}

/// The signatures that a file holds, one per line: the lines of the text
/// that are not empty, in order. A line ends at a line feed; a carriage
/// return just before the line feed is not part of the line. What follows
/// the last line feed is a line as it stands.
pub open spec fn signature_lines(bytes: Seq<u8>) -> Seq<Seq<u8>>
    decreases bytes.len(),
{
    let end = line_end(bytes);
    if bytes.len() == 0 {
        Seq::empty()
    } else if 0 <= end < bytes.len() {
        let line = without_carriage_return(bytes.take(end));
        let rest = signature_lines(bytes.skip(end + 1));
        if line.len() == 0 {
            rest
        } else {
            seq![line] + rest
        }
    } else {
        seq![bytes]
    }
}

/// The first line ends where the first line feed stands.
pub proof fn lemma_line_end(bytes: Seq<u8>, end: int)
    requires
        0 <= end <= bytes.len(),
        forall|j: int| 0 <= j < end ==> bytes[j] != LINE_FEED,
        end < bytes.len() ==> bytes[end] == LINE_FEED,
    ensures
        line_end(bytes) == end,
    decreases end,
{
    if end > 0 {
        let rest = bytes.drop_first();
        assert forall|j: int| 0 <= j < end - 1 implies rest[j] != LINE_FEED by {
            assert(rest[j] == bytes[j + 1]);
        }
        lemma_line_end(rest, end - 1);
    }
}

/// The two default signatures are ASCII, so each takes as many bytes as it
/// has letters: 11 and 40, both within the receive buffer.
pub proof fn lemma_default_signatures_fit()
    ensures
        encode_utf8(SIGNATURE_DEFAULT@).len() == 11,
        encode_utf8(EXTRA_SIGNATURE_DEFAULT@).len() == 40,
{
    reveal_strlit("ipdisbeacon");
    reveal_strlit("pang-supremacy-maritime-revoke-afterglow");
    vstd::string::is_ascii_spec_bytes(SIGNATURE_DEFAULT);
    vstd::string::is_ascii_spec_bytes(EXTRA_SIGNATURE_DEFAULT);
    assert(vstd::string::is_ascii(SIGNATURE_DEFAULT));
    assert(vstd::string::is_ascii(EXTRA_SIGNATURE_DEFAULT));
}

/// A copy of a list of signatures.
pub fn clone_signatures(signatures: &[Signature]) -> (copy: Vec<Signature>)
    ensures
        bytes_of(copy@) == bytes_of(signatures@),
{
    let mut copy: Vec<Signature> = Vec::new();
    let mut i: usize = 0;
    while i < signatures.len()
        invariant
            i <= signatures.len(),
            copy.len() == i,
            forall|j: int| 0 <= j < i ==> (#[trigger] copy[j])@ == signatures[j]@,
        decreases signatures.len() - i,
    {
        copy.push(signatures[i].clone());
        i = i + 1;
    }
    assert(bytes_of(copy@) =~= bytes_of(signatures@));
    copy
}

/// A copy of a list of texts.
pub fn clone_texts(texts: &[String]) -> (copy: Vec<String>)
    ensures
        copy@ == texts@,
{
    let mut copy: Vec<String> = Vec::new();
    let mut i: usize = 0;
    while i < texts.len()
        invariant
            i <= texts.len(),
            copy.len() == i,
            forall|j: int| 0 <= j < i ==> copy[j] == texts[j],
        decreases texts.len() - i,
    {
        copy.push(texts[i].clone());
        i = i + 1;
    }
    assert(copy@ =~= texts@);
    copy
}

/// A beacon's configuration.
#[derive(Debug)]
pub struct ServerConfig {
    /// The port to listen on.
    pub port: u16,
    /// The address to listen on (see `Endpoint` for how it is held).
    pub listening_addr: u32,
    /// The signatures to answer to.
    pub signatures: Vec<Signature>,
    /// The paths of the inventory scripts whose output goes into the answer.
    pub inventory_files: Vec<String>,
}

impl ServerConfig {
    /// Whether the configuration is one a beacon can run with.
    pub open spec fn wf(&self) -> bool {
        signatures_admissible(self.signatures@)
    }

    /// Tells whether the configuration is one a beacon can run with.
    pub fn is_valid(&self) -> (valid: bool)
        ensures
            valid == self.wf(),
    {
        check_signatures(self.signatures.as_slice())
    }

    /// The configuration of a beacon that was told nothing: the default
    /// port and address, the two default signatures, no inventory.
    pub fn dummy() -> (conf: ServerConfig)
        ensures
            conf.port == SERVER_PORT_DEFAULT,
            conf.listening_addr == LISTENING_ADDR_DEFAULT,
            bytes_of(conf.signatures@) == default_signatures(),
            conf.inventory_files@.len() == 0,
            conf.wf(),
    {
        let signatures = default_signature_list();
        proof {
            lemma_default_signatures_fit();
            assert(signatures@.len() == bytes_of(signatures@).len());
            assert forall|i: int| 0 <= i < signatures@.len() implies (#[trigger] signatures@[i])@.len()
                <= MAX_SIGNATURE_LENGTH by {
                assert(bytes_of(signatures@)[i] == signatures@[i]@);
            }
        }
        ServerConfig {
            port: SERVER_PORT_DEFAULT,
            listening_addr: LISTENING_ADDR_DEFAULT,
            signatures,
            inventory_files: Vec::new(),
        }
    }

    /// Reads the signatures out of the contents of a signatures file, one
    /// per line, leaving empty lines out.
    pub fn parse_signatures_file(contents: &[u8]) -> (signatures: Vec<Signature>)
        ensures
            bytes_of(signatures@) == signature_lines(contents@),
    {
        let mut signatures: Vec<Signature> = Vec::new();
        let mut start: usize = 0;
        assert(contents@.skip(0) =~= contents@);
        assert(bytes_of(signatures@) =~= Seq::<Seq<u8>>::empty());
        while start < contents.len()
            invariant
                start <= contents.len(),
                bytes_of(signatures@) + signature_lines(contents@.skip(start as int))
                    == signature_lines(contents@),
            decreases contents.len() - start,
        {
            let ghost rest = contents@.skip(start as int);
            let ghost found = bytes_of(signatures@);
            let mut end: usize = start;
            while end < contents.len() && contents[end] != LINE_FEED
                invariant
                    start <= end <= contents.len(),
                    forall|j: int| start <= j < end ==> contents[j] != LINE_FEED,
                decreases contents.len() - end,
            {
                end = end + 1;
            }
            proof {
                lemma_line_end(rest, end - start);
            }
            if end == contents.len() {
                let line = slice_subrange(contents, start, end);
                assert(line@ =~= rest);
                signatures.push(Signature::from_bytes(line));
                assert(bytes_of(signatures@) =~= found.push(rest));
                start = end;
                assert(contents@.skip(start as int) =~= Seq::<u8>::empty());
            } else {
                let mut stop: usize = end;
                if stop > start && contents[stop - 1] == CARRIAGE_RETURN {
                    stop = stop - 1;
                }
                let ghost line = without_carriage_return(rest.take(end - start));
                assert(contents@.subrange(start as int, stop as int) =~= line);
                assert(rest.skip(end - start + 1) =~= contents@.skip(end + 1));
                if stop > start {
                    signatures.push(Signature::from_bytes(slice_subrange(contents, start, stop)));
                    assert(bytes_of(signatures@) =~= found.push(line));
                }
                start = end + 1;
            }
        }
        assert(contents@.skip(start as int) =~= Seq::<u8>::empty());
        signatures
    }
}

impl Clone for ServerConfig {
    fn clone(&self) -> (copy: ServerConfig)
        ensures
            copy.port == self.port,
            copy.listening_addr == self.listening_addr,
            bytes_of(copy.signatures@) == bytes_of(self.signatures@),
            copy.inventory_files@ == self.inventory_files@,
            copy.wf() == self.wf(),
    {
        let copy = ServerConfig {
            port: self.port,
            listening_addr: self.listening_addr,
            signatures: clone_signatures(self.signatures.as_slice()),
            inventory_files: clone_texts(self.inventory_files.as_slice()),
        };
        proof {
            lemma_admissible_by_bytes(copy.signatures@, self.signatures@);
        }
        copy
    }
}

impl Default for ServerConfig {
    /// Same as `dummy`.
    fn default() -> (conf: ServerConfig)
        ensures
            conf.port == SERVER_PORT_DEFAULT,
            conf.listening_addr == LISTENING_ADDR_DEFAULT,
            bytes_of(conf.signatures@) == default_signatures(),
            conf.inventory_files@.len() == 0,
            conf.wf(),
    {
        ServerConfig::dummy()
    }
}

/// The UTF-8 encoding of each text of a list.
pub open spec fn encodings(texts: Seq<String>) -> Seq<Seq<u8>> {
    texts.map_values(|text: String| encode_utf8(text@))
}

/// The signatures that a list of texts stands for, in order.
pub fn signatures_from_texts(texts: &[String]) -> (signatures: Vec<Signature>)
    ensures
        bytes_of(signatures@) == encodings(texts@),
{
    let mut signatures: Vec<Signature> = Vec::new();
    let mut i: usize = 0;
    while i < texts.len()
        invariant
            i <= texts.len(),
            signatures.len() == i,
            forall|j: int| 0 <= j < i ==> (#[trigger] signatures[j])@ == encode_utf8(texts[j]@),
        decreases texts.len() - i,
    {
        signatures.push(Signature::from_text(texts[i].as_str()));
        i = i + 1;
    }
    assert(bytes_of(signatures@) =~= encodings(texts@));
    signatures
}

/// The two default signatures, the current one first.
pub fn default_signature_list() -> (signatures: Vec<Signature>)
    ensures
        bytes_of(signatures@) == default_signatures(),
{
    let mut signatures: Vec<Signature> = Vec::new();
    signatures.push(Signature::from_text(SIGNATURE_DEFAULT));
    signatures.push(Signature::from_text(EXTRA_SIGNATURE_DEFAULT));
    assert(bytes_of(signatures@) =~= default_signatures());
    signatures
}

/// The signatures a beacon answers to: the chosen ones, then those of the
/// signatures file where one was given; the two defaults where none was
/// chosen and no file given.
pub fn server_signatures(chosen: &[String], signatures_file: Option<&[u8]>) -> (signatures: Vec<
    Signature,
>)
    ensures
        bytes_of(signatures@) == match signatures_file {
            Some(contents) => encodings(chosen@) + signature_lines(contents@),
            None => if chosen.len() == 0 {
                default_signatures()
            } else {
                encodings(chosen@)
            },
        },
{
    match signatures_file {
        Some(contents) => {
            let mut signatures = signatures_from_texts(chosen);
            let ghost first = signatures@;
            let mut listed = ServerConfig::parse_signatures_file(contents);
            let ghost second = listed@;
            signatures.append(&mut listed);
            assert(bytes_of(signatures@) =~= bytes_of(first) + bytes_of(second));
            signatures
        },
        None => scanner_signatures(chosen),
    }
}

/// The signatures a scanner sends: the chosen ones, or the two defaults
/// where none was chosen.
pub fn scanner_signatures(chosen: &[String]) -> (signatures: Vec<Signature>)
    ensures
        bytes_of(signatures@) == if chosen.len() == 0 {
            default_signatures()
        } else {
            encodings(chosen@)
        },
{
    if chosen.len() == 0 {
        default_signature_list()
    } else {
        signatures_from_texts(chosen)
    }
}

/// A scanner's configuration.
#[derive(Debug)]
pub struct ScannerConfig {
    /// The port to send from and listen on.
    pub port: u16,
    /// The time between two rounds, in nanoseconds.
    pub scan_period: u64,
    /// The address to send to (see `Endpoint` for how it is held).
    pub broadcast_addr: u32,
    /// The port beacons listen on.
    pub target_port: u16,
    /// The signatures to send, one datagram each per round.
    pub signatures: Vec<Signature>,
    /// The path of the file that logs go to, if any.
    pub log_file: Option<String>,
}

impl ScannerConfig {
    /// Whether the configuration is one a scanner can run with: the period
    /// is positive and can be slowed down without leaving `u64`, and the
    /// signatures can be configured.
    pub open spec fn wf(&self) -> bool {
        &&& 0 < self.scan_period
        &&& self.scan_period * SLOWDOWN_FACTOR <= u64::MAX
        &&& signatures_admissible(self.signatures@)
    }

    /// Tells whether the configuration is one a scanner can run with.
    pub fn is_valid(&self) -> (valid: bool)
        ensures
            valid == self.wf(),
    {
        0 < self.scan_period && self.scan_period <= u64::MAX / SLOWDOWN_FACTOR && check_signatures(
            self.signatures.as_slice(),
        )
    }
}

impl Clone for ScannerConfig {
    fn clone(&self) -> (copy: ScannerConfig)
        ensures
            copy.port == self.port,
            copy.scan_period == self.scan_period,
            copy.broadcast_addr == self.broadcast_addr,
            copy.target_port == self.target_port,
            bytes_of(copy.signatures@) == bytes_of(self.signatures@),
            copy.log_file == self.log_file,
            copy.wf() == self.wf(),
    {
        let copy = ScannerConfig {
            port: self.port,
            scan_period: self.scan_period,
            broadcast_addr: self.broadcast_addr,
            target_port: self.target_port,
            signatures: clone_signatures(self.signatures.as_slice()),
            log_file: match &self.log_file {
                Some(path) => Some(path.clone()),
                None => None,
            },
        };
        proof {
            lemma_admissible_by_bytes(copy.signatures@, self.signatures@);
        }
        copy
    }
}

} // verus!
