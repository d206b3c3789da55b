use vstd::prelude::*;
use vstd::arithmetic::div_mod::{lemma_div_is_ordered, lemma_div_multiples_vanish,
    lemma_fundamental_div_mod_converse};
use vstd::slice::slice_subrange;
use vstd::utf8::{decode_utf8, encode_utf8, valid_utf8};
use crate::channel::{Channel, OPERATING_TIMEOUT_MS};
use crate::cmd;
use crate::cmd::envelope;
use crate::codec::{decode_u16, decode_u32, encode_str, encode_u16, encode_u32, hex2dec,
    is_status_healthy, le16_bytes, le16_val, le32_bytes, le32_val, status_healthy, bcd_value,
    string_decoding, string_encoding, string_encoding_len, string_from_utf8};
use crate::datetime::{decode_datetime, packed_datetime, valid_datetime, DateTime};
use crate::err::EdError;

verus! {

/// The connection lifecycle. `Connected` is required before any file, memory
/// or game command; `ServiceMode` is the device-side alternate firmware state
/// that must be exited before normal operation.
#[derive(Clone, Copy, Debug, PartialEq, Eq, Structural)]
pub enum ConnState {
    Disconnected,
    Connected,
    ServiceMode,
}

/// The session controller: owns the one live channel handle and drives the
/// protocol — handshake, mode detection, the reboot cycle, and every
/// device command.
pub struct EDIO<C: Channel> {
    chan: C,
    state: Ghost<ConnState>,
}

/// After a pure send: `add` was written, nothing was consumed, and the
/// timeout and session state are unchanged.
pub open spec fn sent_only<C: Channel>(pre: EDIO<C>, post: EDIO<C>, add: Seq<u8>) -> bool {
    &&& post.sent() == pre.sent() + add
    &&& post.incoming() == pre.incoming()
    &&& post.timeout_ms() == pre.timeout_ms()
    &&& post.state() == pre.state()
}

/// A completed exchange: `add` was written, the first `used` incoming bytes
/// were consumed, and the timeout and session state are unchanged.
pub open spec fn exchanged<C: Channel>(pre: EDIO<C>, post: EDIO<C>, add: Seq<u8>, used: int) -> bool {
    &&& 0 <= used <= pre.incoming().len()
    &&& post.sent() == pre.sent() + add
    &&& post.incoming() == pre.incoming().skip(used)
    &&& post.timeout_ms() == pre.timeout_ms()
    &&& post.state() == pre.state()
}

impl<C: Channel> EDIO<C> {
    /// All bytes written to the device on the current handle.
    pub closed spec fn sent(&self) -> Seq<u8> {
        self.chan.sent()
    }

    /// Bytes from the device not yet consumed.
    pub closed spec fn incoming(&self) -> Seq<u8> {
        self.chan.incoming()
    }

    /// The channel's configured read timeout, in milliseconds.
    pub closed spec fn timeout_ms(&self) -> u64 {
        self.chan.timeout_ms()
    }

    /// Where the session stands in the connection lifecycle.
    pub closed spec fn state(&self) -> ConnState {
        self.state@
    }

    /// Take ownership of a freshly opened channel. No handshake happens here;
    /// the session starts `Disconnected`.
    pub fn new(chan: C) -> (r: EDIO<C>)
        ensures
            r.sent() == chan.sent(),
            r.incoming() == chan.incoming(),
            r.timeout_ms() == chan.timeout_ms(),
            r.state() == ConnState::Disconnected,
    {
        EDIO { chan, state: Ghost(ConnState::Disconnected) }
    }

    /// Borrow the underlying channel, to observe what was sent and what
    /// remains unread.
    pub fn channel(&self) -> (r: &C)
        ensures
            r.sent() == self.sent(),
            r.incoming() == self.incoming(),
            r.timeout_ms() == self.timeout_ms(),
    {
        &self.chan
    }

    /// Write raw bytes to the channel.
    pub fn tx_data(&mut self, buff: &[u8]) -> (r: Result<(), EdError>)
        ensures
            r is Ok ==> sent_only(*old(self), *final(self), buff@),
            r is Err ==> r == Err::<(), EdError>(EdError::Transport) && final(self).state()
                == old(self).state(),
    {
        self.chan.write_all(buff)
    }

    /// Write one byte.
    pub fn tx8(&mut self, data: u8) -> (r: Result<(), EdError>)
        ensures
            r is Ok ==> sent_only(*old(self), *final(self), seq![data]),
            r is Err ==> r == Err::<(), EdError>(EdError::Transport) && final(self).state()
                == old(self).state(),
    {
        let mut v: Vec<u8> = Vec::new();
        v.push(data);
        proof {
            assert(v@ =~= seq![data]);
        }
        self.tx_data(v.as_slice())
    }

    /// Write a 16-bit value, little-endian.
    pub fn tx16(&mut self, data: u16) -> (r: Result<(), EdError>)
        ensures
            r is Ok ==> sent_only(*old(self), *final(self), le16_bytes(data)),
            r is Err ==> r == Err::<(), EdError>(EdError::Transport) && final(self).state()
                == old(self).state(),
    {
        let v = encode_u16(data);
        self.tx_data(v.as_slice())
    }

    /// Write a 32-bit value, little-endian.
    pub fn tx32(&mut self, data: u32) -> (r: Result<(), EdError>)
        ensures
            r is Ok ==> sent_only(*old(self), *final(self), le32_bytes(data)),
            r is Err ==> r == Err::<(), EdError>(EdError::Transport) && final(self).state()
                == old(self).state(),
    {
        let v = encode_u32(data);
        self.tx_data(v.as_slice())
    }

    /// Write length-prefixed text: a 16-bit byte length, then the UTF-8
    /// bytes. `TooLong` when the encoding exceeds 65535 bytes.
    pub fn tx_str(&mut self, buff: &str) -> (r: Result<(), EdError>)
        ensures
            r is Ok ==> encode_utf8(buff@).len() <= 0xFFFF && sent_only(
                *old(self),
                *final(self),
                string_encoding(buff@),
            ),
            encode_utf8(buff@).len() > 0xFFFF ==> r == Err::<(), EdError>(EdError::TooLong)
                && *final(self) == *old(self),
            r == Err::<(), EdError>(EdError::TooLong) ==> encode_utf8(buff@).len() > 0xFFFF,
            r is Err ==> (r == Err::<(), EdError>(EdError::Transport) || r == Err::<(), EdError>(EdError::TooLong)) && final(self).state() == old(self).state(),
    {
        match encode_str(buff) {
            Ok(b) => self.tx_data(b.as_slice()),
            Err(e) => Err(e),
        }
    }

    /// Read exactly `len` raw bytes.
    pub fn rx_data(&mut self, len: u32) -> (r: Result<Vec<u8>, EdError>)
        ensures
            r matches Ok(d) ==> d@ == old(self).incoming().take(len as int) && exchanged(
                *old(self),
                *final(self),
                Seq::empty(),
                len as int,
            ),
            r is Err ==> r == Err::<Vec<u8>, EdError>(EdError::Transport) && final(self).sent()
                == old(self).sent() && final(self).state() == old(self).state(),
    {
        let r = self.chan.read_exact(len as usize);
        proof {
            if r is Ok {
                assert(old(self).sent() + Seq::<u8>::empty() =~= old(self).sent());
            }
        }
        r
    }

    /// Read one byte.
    pub fn rx8(&mut self) -> (r: Result<u8, EdError>)
        ensures
            r matches Ok(b) ==> old(self).incoming().len() >= 1 && b == old(self).incoming()[0]
                && exchanged(*old(self), *final(self), Seq::empty(), 1),
            r is Err ==> r == Err::<u8, EdError>(EdError::Transport) && final(self).sent() == old(self).sent() && final(self).state() == old(self).state(),
    {
        match self.rx_data(1) {
            Ok(d) => Ok(d[0]),
            Err(e) => Err(e),
        }
    }

    /// Read a 16-bit value, little-endian.
    pub fn rx16(&mut self) -> (r: Result<u16, EdError>)
        ensures
            r matches Ok(v) ==> old(self).incoming().len() >= 2 && v == le16_val(
                old(self).incoming()[0],
                old(self).incoming()[1],
            ) && exchanged(*old(self), *final(self), Seq::empty(), 2),
            r is Err ==> r == Err::<u16, EdError>(EdError::Transport) && final(self).sent() == old(self).sent() && final(self).state() == old(self).state(),
    {
        match self.rx_data(2) {
            Ok(d) => Ok(decode_u16(d[0], d[1])),
            Err(e) => Err(e),
        }
    }

    /// Read a 32-bit value, little-endian.
    pub fn rx32(&mut self) -> (r: Result<u32, EdError>)
        ensures
            r matches Ok(v) ==> old(self).incoming().len() >= 4 && v == le32_val(
                old(self).incoming()[0],
                old(self).incoming()[1],
                old(self).incoming()[2],
                old(self).incoming()[3],
            ) && exchanged(*old(self), *final(self), Seq::empty(), 4),
            r is Err ==> r == Err::<u32, EdError>(EdError::Transport) && final(self).sent() == old(self).sent() && final(self).state() == old(self).state(),
    {
        match self.rx_data(4) {
            Ok(d) => Ok(decode_u32(d[0], d[1], d[2], d[3])),
            Err(e) => Err(e),
        }
    }

    /// Read length-prefixed text: a 16-bit byte length, then that many UTF-8
    /// bytes; a zero length yields empty text with no further read.
    /// Malformed UTF-8 is `BadText`.
    pub fn rx_string(&mut self) -> (r: Result<String, EdError>)
        ensures
            r matches Ok(s) ==> string_decoding(old(self).incoming()) == Some(s@) && exchanged(
                *old(self),
                *final(self),
                Seq::empty(),
                string_encoding_len(old(self).incoming()),
            ),
            r == Err::<String, EdError>(EdError::BadText) ==> old(self).incoming().len() >= 2
                && old(self).incoming().len() >= string_encoding_len(old(self).incoming())
                && !valid_utf8(
                old(self).incoming().subrange(2, string_encoding_len(old(self).incoming())),
            ),
            r is Err ==> (r == Err::<String, EdError>(EdError::Transport) || r == Err::<String, EdError>(EdError::BadText)) && final(self).sent() == old(self).sent() && final(self).state()
                == old(self).state(),
    {
        let len = match self.rx16() {
            Ok(v) => v,
            Err(e) => {
                return Err(e);
            },
        };
        if len == 0 {
            proof {
                assert(old(self).incoming().subrange(2, 2) =~= Seq::<u8>::empty());
                assert(valid_utf8(Seq::<u8>::empty()));
            }
            return Ok(String::new());
        }
        let data = match self.rx_data(len as u32) {
            Ok(d) => d,
            Err(e) => {
                return Err(e);
            },
        };
        proof {
            assert(data@ =~= old(self).incoming().subrange(2, 2 + len as int));
            assert(self.incoming() =~= old(self).incoming().skip(2 + len as int));
        }
        match string_from_utf8(data) {
            Some(s) => Ok(s),
            None => Err(EdError::BadText),
        }
    }

    /// Frame and send one command envelope; how every command begins.
    pub fn tx_cmd(&mut self, cmd_code: u8) -> (r: Result<(), EdError>)
        ensures
            r is Ok ==> sent_only(*old(self), *final(self), envelope(cmd_code)),
            r is Err ==> r == Err::<(), EdError>(EdError::Transport) && final(self).state()
                == old(self).state(),
    {
        let c = cmd::frame_command(cmd_code);
        self.tx_data(c.as_slice())
    }

    /// Issue the status query. The device is responsive exactly when the
    /// 16-bit response's high byte is 0xA5.
    pub fn get_status(&mut self) -> (r: Result<bool, EdError>)
        ensures
            r matches Ok(b) ==> old(self).incoming().len() >= 2 && b == status_healthy(
                le16_val(old(self).incoming()[0], old(self).incoming()[1]),
            ) && exchanged(*old(self), *final(self), envelope(cmd::CMD_STATUS), 2),
            r is Err ==> r == Err::<bool, EdError>(EdError::Transport) && final(self).state()
                == old(self).state(),
    {
        match self.tx_cmd(cmd::CMD_STATUS) {
            Ok(()) => {},
            Err(e) => {
                return Err(e);
            },
        }
        let resp = match self.rx16() {
            Ok(v) => v,
            Err(e) => {
                return Err(e);
            },
        };
        Ok(is_status_healthy(resp))
    }

    /// Issue a status query and demand a healthy response; `BadStatus`
    /// carries the offending word.
    fn check_status(&mut self) -> (r: Result<(), EdError>)
        ensures
            r is Ok ==> old(self).incoming().len() >= 2 && status_healthy(
                le16_val(old(self).incoming()[0], old(self).incoming()[1]),
            ) && exchanged(*old(self), *final(self), envelope(cmd::CMD_STATUS), 2),
            r matches Err(e) ==> final(self).state() == old(self).state() && (e
                == EdError::Transport || e matches EdError::BadStatus(_)),
            r matches Err(EdError::BadStatus(w)) ==> old(self).incoming().len() >= 2 && w
                == le16_val(old(self).incoming()[0], old(self).incoming()[1]) && !status_healthy(w),
    {
        match self.tx_cmd(cmd::CMD_STATUS) {
            Ok(()) => {},
            Err(e) => {
                return Err(e);
            },
        }
        let resp = match self.rx16() {
            Ok(v) => v,
            Err(e) => {
                return Err(e);
            },
        };
        if !is_status_healthy(resp) {
            return Err(EdError::BadStatus(resp));
        }
        Ok(())
    }

    /// Handshake: issue the status query; a response whose high byte is not
    /// 0xA5 fails fatally with `BadStatus` (the device is absent or
    /// unresponsive — no retry). On success the read timeout is raised from
    /// the discovery value to the operating value and the session is
    /// `Connected`.
    pub fn connect(&mut self) -> (r: Result<(), EdError>)
        ensures
            r is Ok ==> final(self).state() == ConnState::Connected && final(self).timeout_ms()
                == OPERATING_TIMEOUT_MS && old(self).incoming().len() >= 2 && status_healthy(
                le16_val(old(self).incoming()[0], old(self).incoming()[1]),
            ) && final(self).sent() == old(self).sent() + envelope(cmd::CMD_STATUS)
                && final(self).incoming() == old(self).incoming().skip(2),
            r matches Err(e) ==> final(self).state() == old(self).state() && (e
                == EdError::Transport || e matches EdError::BadStatus(_)),
            r matches Err(EdError::BadStatus(w)) ==> old(self).incoming().len() >= 2 && w
                == le16_val(old(self).incoming()[0], old(self).incoming()[1]) && !status_healthy(w),
    {
        match self.check_status() {
            Ok(()) => {},
            Err(e) => {
                return Err(e);
            },
        }
        match self.chan.set_timeout(OPERATING_TIMEOUT_MS) {
            Ok(()) => {},
            Err(e) => {
                return Err(e);
            },
        }
        self.state = Ghost(ConnState::Connected);
        Ok(())
    }

    /// Mode query: the device signals service mode with the sentinel response
    /// byte 0xA1; any other value is normal application mode.
    pub fn is_service_mode(&mut self) -> (r: Result<bool, EdError>)
        requires
            old(self).state() != ConnState::Disconnected,
        ensures
            r matches Ok(b) ==> old(self).incoming().len() >= 1 && b == (old(self).incoming()[0]
                == 0xA1) && final(self).sent() == old(self).sent() + envelope(cmd::CMD_GET_MODE)
                && final(self).incoming() == old(self).incoming().skip(1)
                && final(self).timeout_ms() == old(self).timeout_ms() && final(self).state() == (if b {
                ConnState::ServiceMode
            } else {
                ConnState::Connected
            }),
            r is Err ==> r == Err::<bool, EdError>(EdError::Transport) && final(self).state()
                == old(self).state(),
    {
        match self.tx_cmd(cmd::CMD_GET_MODE) {
            Ok(()) => {},
            Err(e) => {
                return Err(e);
            },
        }
        let b = match self.rx8() {
            Ok(v) => v,
            Err(e) => {
                return Err(e);
            },
        };
        if b == 0xA1 {
            self.state = Ghost(ConnState::ServiceMode);
            Ok(true)
        } else {
            self.state = Ghost(ConnState::Connected);
            Ok(false)
        }
    }

    /// The reboot-wait sequence: release and reacquire the channel handle
    /// (with the settle delays the channel provides), then re-run the
    /// handshake. On success the fresh handle has seen exactly the handshake.
    fn boot_wait(&mut self) -> (r: Result<(), EdError>)
        ensures
            r is Ok ==> final(self).state() == ConnState::Connected && final(self).timeout_ms()
                == OPERATING_TIMEOUT_MS && final(self).sent() == envelope(cmd::CMD_STATUS),
            r matches Err(e) ==> final(self).state() == old(self).state() && (e
                == EdError::Transport || e matches EdError::BadStatus(_)),
    {
        match self.chan.reopen() {
            Ok(()) => {},
            Err(e) => {
                return Err(e);
            },
        }
        proof {
            assert(Seq::<u8>::empty() + envelope(cmd::CMD_STATUS) =~= envelope(cmd::CMD_STATUS));
        }
        self.connect()
    }

    /// Exit service mode. If the device does not report service mode this is
    /// a no-op. Otherwise: command it to run the application, release the
    /// handle, wait, reacquire, re-handshake, and query the mode again — if
    /// the device still reports service mode it is considered stuck
    /// (`DeviceStuck`), with no further automated recovery.
    pub fn exit_service_mode(&mut self) -> (r: Result<(), EdError>)
        requires
            old(self).state() != ConnState::Disconnected,
        ensures
            r is Ok ==> final(self).state() == ConnState::Connected,
            r is Ok && old(self).incoming().len() >= 1 && old(self).incoming()[0] != 0xA1
                ==> final(self).sent() == old(self).sent() + envelope(cmd::CMD_GET_MODE)
                && final(self).incoming() == old(self).incoming().skip(1)
                && final(self).timeout_ms() == old(self).timeout_ms(),
            r is Ok && old(self).incoming().len() >= 1 && old(self).incoming()[0] == 0xA1
                ==> final(self).sent() == envelope(cmd::CMD_STATUS) + envelope(cmd::CMD_GET_MODE)
                && final(self).timeout_ms() == OPERATING_TIMEOUT_MS,
            r == Err::<(), EdError>(EdError::DeviceStuck) ==> old(self).incoming().len() >= 1
                && old(self).incoming()[0] == 0xA1 && final(self).state() == ConnState::ServiceMode,
            r matches Err(e) ==> e == EdError::Transport || e matches EdError::BadStatus(_) || e
                == EdError::DeviceStuck,
    {
        let svc = match self.is_service_mode() {
            Ok(v) => v,
            Err(e) => {
                return Err(e);
            },
        };
        if !svc {
            return Ok(());
        }
        match self.tx_cmd(cmd::CMD_RUN_APP) {
            Ok(()) => {},
            Err(e) => {
                return Err(e);
            },
        }
        match self.boot_wait() {
            Ok(()) => {},
            Err(e) => {
                return Err(e);
            },
        }
        let still = match self.is_service_mode() {
            Ok(v) => v,
            Err(e) => {
                return Err(e);
            },
        };
        if still {
            return Err(EdError::DeviceStuck);
        }
        Ok(())
    }
}

/// A decoded directory/file record: size in bytes, normalized timestamp,
/// attribute bitmask, and name.
#[derive(Debug, PartialEq)]
pub struct FileInfo {
    pub size: u32,
    pub date: DateTime,
    pub attrib: u8,
    pub name: String,
}

/// The attribute bit that marks a record as a directory.
pub const ATTR_DIR: u8 = 0x10;

impl FileInfo {
    /// Whether the attribute bitmask classifies the record as a directory
    /// (bit 0x10 set); any other bit, such as archive, does not.
    pub fn is_dir(&self) -> (r: bool)
        ensures
            r == (self.attrib & ATTR_DIR != 0),
    {
        self.attrib & ATTR_DIR != 0
    }
}

/// Whether the incoming stream starts with a complete directory/file record:
/// the nine fixed bytes, the name-length prefix, and a name of the announced
/// length.
pub open spec fn record_complete(inc: Seq<u8>) -> bool {
    inc.len() >= 11 && inc.len() >= 11 + le16_val(inc[9], inc[10])
}

/// The record's total length on the wire.
pub open spec fn record_len(inc: Seq<u8>) -> int
    recommends
        inc.len() >= 11,
{
    11 + le16_val(inc[9], inc[10])
}

/// The UTF-8 bytes of the record's name field.
pub open spec fn record_name_bytes(inc: Seq<u8>) -> Seq<u8>
    recommends
        record_complete(inc),
{
    inc.subrange(11, 11 + le16_val(inc[9], inc[10]))
}

/// The timestamp packed into the record's date and time fields.
pub open spec fn record_datetime(inc: Seq<u8>) -> DateTime
    recommends
        inc.len() >= 8,
{
    packed_datetime(le16_val(inc[4], inc[5]), le16_val(inc[6], inc[7]))
}

/// Whether the record decodes: complete, with a valid calendar timestamp and
/// a valid UTF-8 name.
pub open spec fn record_decodes(inc: Seq<u8>) -> bool {
    &&& record_complete(inc)
    &&& valid_datetime(record_datetime(inc))
    &&& valid_utf8(record_name_bytes(inc))
}

/// How a decoded record corresponds to the bytes it came from.
pub open spec fn record_matches(inc: Seq<u8>, fi: FileInfo) -> bool {
    &&& fi.size == le32_val(inc[0], inc[1], inc[2], inc[3])
    &&& fi.date == record_datetime(inc)
    &&& fi.attrib == inc[8]
    &&& fi.name@ == decode_utf8(record_name_bytes(inc))
}

impl<C: Channel> EDIO<C> {
    /// Read and decode one directory/file record, in fixed field order:
    /// 32-bit size, 16-bit packed date, 16-bit packed time, attribute byte,
    /// then the length-prefixed name. An invalid calendar date is the fatal
    /// decode error `BadDate`; a malformed name is `BadText`.
    pub fn rx_file_info(&mut self) -> (r: Result<FileInfo, EdError>)
        ensures
            r matches Ok(fi) ==> record_decodes(old(self).incoming()) && record_matches(
                old(self).incoming(),
                fi,
            ) && exchanged(
                *old(self),
                *final(self),
                Seq::empty(),
                record_len(old(self).incoming()),
            ),
            r matches Err(e) ==> final(self).sent() == old(self).sent() && final(self).state()
                == old(self).state() && (e == EdError::Transport || e == EdError::BadDate || e
                == EdError::BadText),
            r == Err::<FileInfo, EdError>(EdError::BadDate) ==> old(self).incoming().len() >= 9
                && !valid_datetime(record_datetime(old(self).incoming())),
            r == Err::<FileInfo, EdError>(EdError::BadText) ==> record_complete(
                old(self).incoming(),
            ) && !valid_utf8(record_name_bytes(old(self).incoming())),
    {
        let size = match self.rx32() {
            Ok(v) => v,
            Err(e) => {
                return Err(e);
            },
        };
        let date = match self.rx16() {
            Ok(v) => v,
            Err(e) => {
                return Err(e);
            },
        };
        let time = match self.rx16() {
            Ok(v) => v,
            Err(e) => {
                return Err(e);
            },
        };
        let attrib = match self.rx8() {
            Ok(v) => v,
            Err(e) => {
                return Err(e);
            },
        };
        proof {
            assert(date == le16_val(old(self).incoming()[4], old(self).incoming()[5]));
            assert(time == le16_val(old(self).incoming()[6], old(self).incoming()[7]));
            assert(attrib == old(self).incoming()[8]);
        }
        let dt = match decode_datetime(date, time) {
            Ok(d) => d,
            Err(e) => {
                return Err(e);
            },
        };
        let ghost inc9 = old(self).incoming().skip(9);
        proof {
            assert(self.incoming() =~= inc9);
        }
        let name = match self.rx_string() {
            Ok(s) => s,
            Err(e) => {
                proof {
                    if e == EdError::BadText {
                        assert(inc9[0] == old(self).incoming()[9]);
                        assert(inc9[1] == old(self).incoming()[10]);
                        assert(inc9.subrange(2, string_encoding_len(inc9)) =~= record_name_bytes(
                            old(self).incoming(),
                        ));
                    }
                }
                return Err(e);
            },
        };
        proof {
            assert(inc9[0] == old(self).incoming()[9]);
            assert(inc9[1] == old(self).incoming()[10]);
            assert(inc9.subrange(2, string_encoding_len(inc9)) =~= record_name_bytes(
                old(self).incoming(),
            ));
            assert(self.incoming() =~= old(self).incoming().skip(
                record_len(old(self).incoming()),
            ));
        }
        Ok(FileInfo { size, date: dt, attrib, name })
    }

    /// Read the next record of the loaded directory listing. A nonzero
    /// response byte is a device-side error, `DeviceError`.
    pub fn dir_read(&mut self) -> (r: Result<FileInfo, EdError>)
        requires
            old(self).state() == ConnState::Connected,
        ensures
            r matches Ok(fi) ==> old(self).incoming().len() >= 1 && old(self).incoming()[0] == 0
                && record_decodes(old(self).incoming().skip(1)) && record_matches(
                old(self).incoming().skip(1),
                fi,
            ) && exchanged(
                *old(self),
                *final(self),
                envelope(cmd::CMD_F_DIR_RD) + le16_bytes(0xFF),
                1 + record_len(old(self).incoming().skip(1)),
            ),
            r matches Err(e) ==> final(self).state() == old(self).state() && (e
                == EdError::Transport || e matches EdError::DeviceError(_) || e == EdError::BadDate
                || e == EdError::BadText),
            r matches Err(EdError::DeviceError(b)) ==> b != 0 && old(self).incoming().len() >= 1
                && b == old(self).incoming()[0],
    {
        match self.tx_cmd(cmd::CMD_F_DIR_RD) {
            Ok(()) => {},
            Err(e) => {
                return Err(e);
            },
        }
        match self.tx16(0xFF) {
            Ok(()) => {},
            Err(e) => {
                return Err(e);
            },
        }
        let response = match self.rx8() {
            Ok(v) => v,
            Err(e) => {
                return Err(e);
            },
        };
        if response != 0 {
            return Err(EdError::DeviceError(response));
        }
        let fi = match self.rx_file_info() {
            Ok(v) => v,
            Err(e) => {
                return Err(e);
            },
        };
        proof {
            assert(self.sent() =~= old(self).sent() + (envelope(cmd::CMD_F_DIR_RD) + le16_bytes(
                0xFF,
            )));
            assert(self.incoming() =~= old(self).incoming().skip(
                1 + record_len(old(self).incoming().skip(1)),
            ));
        }
        Ok(fi)
    }

    /// Query the loaded directory's entry count.
    pub fn dir_get_size(&mut self) -> (r: Result<u16, EdError>)
        requires
            old(self).state() == ConnState::Connected,
        ensures
            r matches Ok(n) ==> old(self).incoming().len() >= 2 && n == le16_val(
                old(self).incoming()[0],
                old(self).incoming()[1],
            ) && exchanged(*old(self), *final(self), envelope(cmd::CMD_F_DIR_SIZE), 2),
            r is Err ==> r == Err::<u16, EdError>(EdError::Transport) && final(self).state()
                == old(self).state(),
    {
        match self.tx_cmd(cmd::CMD_F_DIR_SIZE) {
            Ok(()) => {},
            Err(e) => {
                return Err(e);
            },
        }
        self.rx16()
    }

    /// Open a directory by path; the device acknowledges through a status
    /// query.
    pub fn dir_open(&mut self, path: &str) -> (r: Result<(), EdError>)
        requires
            old(self).state() == ConnState::Connected,
        ensures
            r is Ok ==> encode_utf8(path@).len() <= 0xFFFF && old(self).incoming().len() >= 2
                && status_healthy(le16_val(old(self).incoming()[0], old(self).incoming()[1]))
                && exchanged(
                *old(self),
                *final(self),
                envelope(cmd::CMD_F_DIR_OPN) + string_encoding(path@) + envelope(cmd::CMD_STATUS),
                2,
            ),
            r matches Err(e) ==> final(self).state() == old(self).state() && (e
                == EdError::Transport || e == EdError::TooLong || e matches EdError::BadStatus(_)),
            r == Err::<(), EdError>(EdError::TooLong) ==> encode_utf8(path@).len() > 0xFFFF,
            r matches Err(EdError::BadStatus(w)) ==> old(self).incoming().len() >= 2 && w
                == le16_val(old(self).incoming()[0], old(self).incoming()[1]) && !status_healthy(w),
    {
        match self.tx_cmd(cmd::CMD_F_DIR_OPN) {
            Ok(()) => {},
            Err(e) => {
                return Err(e);
            },
        }
        match self.tx_str(path) {
            Ok(()) => {},
            Err(e) => {
                return Err(e);
            },
        }
        let r = self.check_status();
        proof {
            if r is Ok {
                assert(self.sent() =~= old(self).sent() + (envelope(cmd::CMD_F_DIR_OPN)
                    + string_encoding(path@) + envelope(cmd::CMD_STATUS)));
            }
        }
        r
    }

    /// Load a directory listing device-side (optionally sorted), populating
    /// its size; the device acknowledges through a status query.
    pub fn dir_load(&mut self, path: &str, sorted: u8) -> (r: Result<(), EdError>)
        requires
            old(self).state() == ConnState::Connected,
        ensures
            r is Ok ==> encode_utf8(path@).len() <= 0xFFFF && old(self).incoming().len() >= 2
                && status_healthy(le16_val(old(self).incoming()[0], old(self).incoming()[1]))
                && exchanged(
                *old(self),
                *final(self),
                envelope(cmd::CMD_F_DIR_LD) + seq![sorted] + string_encoding(path@) + envelope(
                    cmd::CMD_STATUS,
                ),
                2,
            ),
            r matches Err(e) ==> final(self).state() == old(self).state() && (e
                == EdError::Transport || e == EdError::TooLong || e matches EdError::BadStatus(_)),
            r == Err::<(), EdError>(EdError::TooLong) ==> encode_utf8(path@).len() > 0xFFFF,
            r matches Err(EdError::BadStatus(w)) ==> old(self).incoming().len() >= 2 && w
                == le16_val(old(self).incoming()[0], old(self).incoming()[1]) && !status_healthy(w),
    {
        match self.tx_cmd(cmd::CMD_F_DIR_LD) {
            Ok(()) => {},
            Err(e) => {
                return Err(e);
            },
        }
        match self.tx8(sorted) {
            Ok(()) => {},
            Err(e) => {
                return Err(e);
            },
        }
        match self.tx_str(path) {
            Ok(()) => {},
            Err(e) => {
                return Err(e);
            },
        }
        let r = self.check_status();
        proof {
            if r is Ok {
                assert(self.sent() =~= old(self).sent() + (envelope(cmd::CMD_F_DIR_LD)
                    + seq![sorted] + string_encoding(path@) + envelope(cmd::CMD_STATUS)));
            }
        }
        r
    }

    /// Query a file's metadata record by path. A nonzero response byte is a
    /// device-side access error, `DeviceError`.
    pub fn file_info(&mut self, path: &str) -> (r: Result<FileInfo, EdError>)
        requires
            old(self).state() == ConnState::Connected,
        ensures
            r matches Ok(fi) ==> encode_utf8(path@).len() <= 0xFFFF && old(
                self,
            ).incoming().len() >= 1 && old(self).incoming()[0] == 0 && record_decodes(
                old(self).incoming().skip(1),
            ) && record_matches(old(self).incoming().skip(1), fi) && exchanged(
                *old(self),
                *final(self),
                envelope(cmd::CMD_F_FINFO) + string_encoding(path@),
                1 + record_len(old(self).incoming().skip(1)),
            ),
            r matches Err(e) ==> final(self).state() == old(self).state() && (e
                == EdError::Transport || e == EdError::TooLong || e matches EdError::DeviceError(_)
                || e == EdError::BadDate || e == EdError::BadText),
            r == Err::<FileInfo, EdError>(EdError::TooLong) ==> encode_utf8(path@).len() > 0xFFFF,
            r matches Err(EdError::DeviceError(b)) ==> b != 0 && old(self).incoming().len() >= 1
                && b == old(self).incoming()[0],
    {
        match self.tx_cmd(cmd::CMD_F_FINFO) {
            Ok(()) => {},
            Err(e) => {
                return Err(e);
            },
        }
        match self.tx_str(path) {
            Ok(()) => {},
            Err(e) => {
                return Err(e);
            },
        }
        let response = match self.rx8() {
            Ok(v) => v,
            Err(e) => {
                return Err(e);
            },
        };
        if response != 0 {
            return Err(EdError::DeviceError(response));
        }
        let fi = match self.rx_file_info() {
            Ok(v) => v,
            Err(e) => {
                return Err(e);
            },
        };
        proof {
            assert(self.sent() =~= old(self).sent() + (envelope(cmd::CMD_F_FINFO)
                + string_encoding(path@)));
            assert(self.incoming() =~= old(self).incoming().skip(
                1 + record_len(old(self).incoming().skip(1)),
            ));
        }
        Ok(fi)
    }
}

/// The number of blocks a gated bulk transfer of `len` bytes uses, at
/// `block` bytes per block; the last block may be short.
pub open spec fn num_blocks(len: int, block: int) -> int
    recommends
        block >= 1,
{
    (len + block - 1) / block
}

/// The first `n` incoming bytes are zero "proceed" gates.
pub open spec fn gates_clear(inc: Seq<u8>, n: int) -> bool {
    inc.len() >= n && forall|i: int| 0 <= i < n ==> inc[i] == 0
}

proof fn lemma_num_blocks_exact(len: int, block: int, b: int)
    requires
        block >= 1,
        b >= 0,
        block * (b - 1) < len <= block * b,
    ensures
        num_blocks(len, block) == b,
{
    assert(0 <= len + block - 1 - b * block < block) by (nonlinear_arith)
        requires
            block >= 1,
            block * (b - 1) < len <= block * b,
    ;
    lemma_fundamental_div_mod_converse(len + block - 1, block, b, len + block - 1 - b * block);
}

proof fn lemma_num_blocks_lower(len: int, block: int, k: int)
    requires
        block >= 1,
        k >= 0,
        len > block * k,
    ensures
        num_blocks(len, block) > k,
{
    assert(block * (k + 1) <= len + block - 1) by (nonlinear_arith)
        requires
            block >= 1,
            k >= 0,
            len > block * k,
    ;
    lemma_div_is_ordered(block * (k + 1), len + block - 1, block);
    lemma_div_multiples_vanish(k + 1, block);
}

/// Whether the incoming stream carries a complete gated bulk read of `rem`
/// bytes: before each block of `min(rem, 4096)` bytes stands one zero gate
/// byte.
pub open spec fn bulk_read_ok(inc: Seq<u8>, rem: int) -> bool
    decreases rem,
{
    if rem <= 0 {
        true
    } else {
        let blk = if rem < 4096 {
            rem
        } else {
            4096
        };
        &&& inc.len() >= 1 + blk
        &&& inc[0] == 0
        &&& bulk_read_ok(inc.skip(1 + blk), rem - blk)
    }
}

/// The payload assembled by a gated bulk read of `rem` bytes: the block
/// contents, gates stripped, in order.
pub open spec fn bulk_read_data(inc: Seq<u8>, rem: int) -> Seq<u8>
    decreases rem,
{
    if rem <= 0 {
        Seq::empty()
    } else {
        let blk = if rem < 4096 {
            rem
        } else {
            4096
        };
        inc.subrange(1, 1 + blk) + bulk_read_data(inc.skip(1 + blk), rem - blk)
    }
}

/// Law: a successful gated bulk read of `rem` bytes assembles exactly `rem`
/// bytes.
pub proof fn lemma_bulk_read_len(inc: Seq<u8>, rem: int)
    requires
        rem >= 0,
        bulk_read_ok(inc, rem),
    ensures
        bulk_read_data(inc, rem).len() == rem,
    decreases rem,
{
    if rem > 0 {
        let blk = if rem < 4096 {
            rem
        } else {
            4096
        };
        lemma_bulk_read_len(inc.skip(1 + blk), rem - blk);
    }
}

impl<C: Channel> EDIO<C> {
    /// Bulk send: move the payload to the device in 1024-byte blocks (the
    /// last may be short), reading one gate byte before each block — zero
    /// means proceed, nonzero aborts the whole transfer with `DeviceError`
    /// after exactly the blocks already written — and reporting progress.
    /// Completion is implicit: no acknowledgment follows the last block.
    #[verifier::loop_isolation(false)]
    pub fn tx_data_ack(&mut self, buff: &[u8]) -> (r: Result<(), EdError>)
        ensures
            r is Ok ==> gates_clear(old(self).incoming(), num_blocks(buff@.len() as int, 1024))
                && exchanged(
                *old(self),
                *final(self),
                buff@,
                num_blocks(buff@.len() as int, 1024),
            ),
            r matches Err(e) ==> final(self).state() == old(self).state() && (e
                == EdError::Transport || e matches EdError::DeviceError(_)),
            r matches Err(EdError::DeviceError(g)) ==> g != 0 && exists|k: int|
                0 <= k < num_blocks(buff@.len() as int, 1024) && gates_clear(
                    old(self).incoming(),
                    k,
                ) && old(self).incoming().len() > k && old(self).incoming()[k] == g
                    && final(self).sent() == old(self).sent() + buff@.take(1024 * k)
                    && final(self).incoming() == old(self).incoming().skip(k + 1),
    {
        let total: usize = buff.len();
        let mut offset: usize = 0;
        let ghost inc0 = self.incoming();
        let ghost sent0 = self.sent();
        let ghost t0 = self.timeout_ms();
        let ghost st0 = self.state();
        let ghost mut blocks: int = 0;
        while offset < total
            invariant
                offset <= total,
                total == buff@.len(),
                blocks >= 0,
                offset == 1024 * blocks || (offset == total && 1024 * (blocks - 1) < offset
                    < 1024 * blocks),
                gates_clear(inc0, blocks),
                self.sent() == sent0 + buff@.take(offset as int),
                self.incoming() == inc0.skip(blocks),
                self.timeout_ms() == t0,
                self.state() == st0,
            decreases total - offset,
        {
            let resp = match self.rx8() {
                Ok(v) => v,
                Err(e) => {
                    return Err(e);
                },
            };
            proof {
                assert(resp == inc0[blocks]);
            }
            if resp != 0 {
                proof {
                    let k = blocks;
                    lemma_num_blocks_lower(total as int, 1024, k);
                    assert(buff@.take(offset as int) == buff@.take(1024 * k));
                    assert(self.incoming() =~= inc0.skip(k + 1));
                    assert(0 <= k < num_blocks(buff@.len() as int, 1024) && gates_clear(inc0, k)
                        && inc0.len() > k && inc0[k] == resp && self.sent() == sent0 + buff@.take(
                        1024 * k,
                    ) && self.incoming() == inc0.skip(k + 1));
                }
                return Err(EdError::DeviceError(resp));
            }
            let mut block: usize = 1024;
            if block > total - offset {
                block = total - offset;
            }
            self.chan.progress(offset as u64, total as u64);
            let chunk = slice_subrange(buff, offset, offset + block);
            match self.tx_data(chunk) {
                Ok(()) => {},
                Err(e) => {
                    return Err(e);
                },
            }
            proof {
                assert(sent0 + buff@.take(offset as int) + chunk@ =~= sent0 + buff@.take(
                    offset + block as int,
                ));
                assert(self.incoming() =~= inc0.skip(blocks + 1));
                assert(gates_clear(inc0, blocks + 1));
                blocks = blocks + 1;
            }
            offset = offset + block;
        }
        proof {
            assert(buff@.take(total as int) =~= buff@);
            if blocks == 0 {
                assert(num_blocks(0, 1024) == 0);
                assert(offset == 0);
            } else {
                lemma_num_blocks_exact(total as int, 1024, blocks);
            }
        }
        Ok(())
    }

    /// Bulk read: frame the read command, send the requested length, then
    /// collect gated blocks of `min(remaining, 4096)` bytes — one zero gate
    /// byte before each block, a nonzero gate aborting with `DeviceError` —
    /// until `length` bytes have accumulated.
    #[verifier::loop_isolation(false)]
    pub fn file_read(&mut self, length: u32) -> (r: Result<Vec<u8>, EdError>)
        requires
            old(self).state() == ConnState::Connected,
        ensures
            r matches Ok(data) ==> bulk_read_ok(old(self).incoming(), length as int) && data@
                == bulk_read_data(old(self).incoming(), length as int) && data@.len() == length
                && exchanged(
                *old(self),
                *final(self),
                envelope(cmd::CMD_F_FRD) + le32_bytes(length),
                length + num_blocks(length as int, 4096),
            ),
            r matches Err(e) ==> final(self).state() == old(self).state() && (e
                == EdError::Transport || e matches EdError::DeviceError(_)),
            r matches Err(EdError::DeviceError(g)) ==> g != 0 && exists|p: int|
                0 <= p < old(self).incoming().len() && p % 4097 == 0 && #[trigger] old(
                    self,
                ).incoming()[p] == g && final(self).incoming() == old(self).incoming().skip(p + 1),
    {
        match self.tx_cmd(cmd::CMD_F_FRD) {
            Ok(()) => {},
            Err(e) => {
                return Err(e);
            },
        }
        match self.tx32(length) {
            Ok(()) => {},
            Err(e) => {
                return Err(e);
            },
        }
        let ghost inc0 = self.incoming();
        let ghost sent1 = self.sent();
        let ghost t0 = self.timeout_ms();
        let ghost st0 = self.state();
        proof {
            assert(inc0 == old(self).incoming());
            assert(sent1 =~= old(self).sent() + (envelope(cmd::CMD_F_FRD) + le32_bytes(length)));
        }
        let mut buff: Vec<u8> = Vec::new();
        let mut len: u32 = length;
        let ghost mut blocks: int = 0;
        while len > 0
            invariant
                len <= length,
                blocks >= 0,
                length - len == 4096 * blocks || (len == 0 && 4096 * (blocks - 1) < length - len
                    < 4096 * blocks),
                buff@.len() == length - len,
                bulk_read_ok(inc0, length as int) <==> bulk_read_ok(self.incoming(), len as int),
                bulk_read_ok(inc0, length as int) ==> bulk_read_data(inc0, length as int) == buff@
                    + bulk_read_data(self.incoming(), len as int),
                self.incoming() == inc0.skip(length - len + blocks),
                length - len + blocks <= inc0.len(),
                self.sent() == sent1,
                self.timeout_ms() == t0,
                self.state() == st0,
            decreases len,
        {
            let ghost inc_cur = self.incoming();
            let mut block: u32 = 4096;
            if block > len {
                block = len;
            }
            let response = match self.rx8() {
                Ok(v) => v,
                Err(e) => {
                    return Err(e);
                },
            };
            if response != 0 {
                proof {
                    let k = blocks;
                    let p = 4097 * k;
                    assert(length - len == 4096 * k);
                    assert(inc_cur == inc0.skip(p));
                    assert(response == inc0[p]);
                    assert(self.incoming() =~= inc0.skip(p + 1));
                    vstd::arithmetic::div_mod::lemma_mod_multiples_basic(k, 4097);
                    assert(0 <= p < inc0.len() && p % 4097 == 0 && inc0[p] == response
                        && self.incoming() == inc0.skip(p + 1));
                }
                return Err(EdError::DeviceError(response));
            }
            let mut data = match self.rx_data(block) {
                Ok(d) => d,
                Err(e) => {
                    return Err(e);
                },
            };
            proof {
                assert(data@ =~= inc_cur.subrange(1, 1 + block as int));
                assert(self.incoming() =~= inc_cur.skip(1 + block as int));
                assert(self.incoming() =~= inc0.skip(length - (len - block) + (blocks + 1)));
            }
            buff.append(&mut data);
            proof {
                assert(bulk_read_ok(inc_cur, len as int) <==> bulk_read_ok(
                    self.incoming(),
                    (len - block) as int,
                ));
                if bulk_read_ok(inc0, length as int) {
                    assert(bulk_read_data(inc_cur, len as int) == inc_cur.subrange(
                        1,
                        1 + block as int,
                    ) + bulk_read_data(self.incoming(), (len - block) as int));
                }
                blocks = blocks + 1;
            }
            len = len - block;
        }
        proof {
            assert(bulk_read_ok(self.incoming(), 0));
            assert(buff@ + bulk_read_data(self.incoming(), 0) =~= buff@);
            if blocks == 0 {
                assert(num_blocks(0, 4096) == 0);
            } else {
                lemma_num_blocks_exact(length as int, 4096, blocks);
            }
        }
        Ok(buff)
    }

    /// Open a file by path with the given mode flags; the device
    /// acknowledges through a status query.
    pub fn file_open(&mut self, path: &str, mode: u8) -> (r: Result<(), EdError>)
        requires
            old(self).state() == ConnState::Connected,
        ensures
            r is Ok ==> encode_utf8(path@).len() <= 0xFFFF && old(self).incoming().len() >= 2
                && status_healthy(le16_val(old(self).incoming()[0], old(self).incoming()[1]))
                && exchanged(
                *old(self),
                *final(self),
                envelope(cmd::CMD_F_FOPN) + seq![mode] + string_encoding(path@) + envelope(
                    cmd::CMD_STATUS,
                ),
                2,
            ),
            r matches Err(e) ==> final(self).state() == old(self).state() && (e
                == EdError::Transport || e == EdError::TooLong || e matches EdError::BadStatus(_)),
            r == Err::<(), EdError>(EdError::TooLong) ==> encode_utf8(path@).len() > 0xFFFF,
            r matches Err(EdError::BadStatus(w)) ==> old(self).incoming().len() >= 2 && w
                == le16_val(old(self).incoming()[0], old(self).incoming()[1]) && !status_healthy(w),
    {
        match self.tx_cmd(cmd::CMD_F_FOPN) {
            Ok(()) => {},
            Err(e) => {
                return Err(e);
            },
        }
        match self.tx8(mode) {
            Ok(()) => {},
            Err(e) => {
                return Err(e);
            },
        }
        match self.tx_str(path) {
            Ok(()) => {},
            Err(e) => {
                return Err(e);
            },
        }
        let r = self.check_status();
        proof {
            if r is Ok {
                assert(self.sent() =~= old(self).sent() + (envelope(cmd::CMD_F_FOPN) + seq![mode]
                    + string_encoding(path@) + envelope(cmd::CMD_STATUS)));
            }
        }
        r
    }

    /// Write a payload to the opened file: frame the write command, send the
    /// total length, bulk-send the payload under per-block gating, then
    /// demand a healthy status.
    pub fn file_write(&mut self, data: &[u8]) -> (r: Result<(), EdError>)
        requires
            old(self).state() == ConnState::Connected,
            data@.len() <= u32::MAX,
        ensures
            r is Ok ==> ({
                let nb = num_blocks(data@.len() as int, 1024);
                gates_clear(old(self).incoming(), nb) && old(self).incoming().len() >= nb + 2
                    && status_healthy(
                    le16_val(old(self).incoming()[nb], old(self).incoming()[nb + 1]),
                ) && exchanged(
                    *old(self),
                    *final(self),
                    envelope(cmd::CMD_F_FWR) + le32_bytes(data@.len() as u32) + data@ + envelope(
                        cmd::CMD_STATUS,
                    ),
                    nb + 2,
                )
            }),
            r matches Err(e) ==> final(self).state() == old(self).state() && (e
                == EdError::Transport || e matches EdError::DeviceError(_) || e
                matches EdError::BadStatus(_)),
            r matches Err(EdError::DeviceError(g)) ==> g != 0,
            r matches Err(EdError::BadStatus(w)) ==> !status_healthy(w),
    {
        match self.tx_cmd(cmd::CMD_F_FWR) {
            Ok(()) => {},
            Err(e) => {
                return Err(e);
            },
        }
        match self.tx32(data.len() as u32) {
            Ok(()) => {},
            Err(e) => {
                return Err(e);
            },
        }
        match self.tx_data_ack(data) {
            Ok(()) => {},
            Err(e) => {
                return Err(e);
            },
        }
        let r = self.check_status();
        proof {
            if r is Ok {
                let nb = num_blocks(data@.len() as int, 1024);
                assert(old(self).incoming().skip(nb)[0] == old(self).incoming()[nb]);
                assert(old(self).incoming().skip(nb)[1] == old(self).incoming()[nb + 1]);
                assert(self.sent() =~= old(self).sent() + (envelope(cmd::CMD_F_FWR) + le32_bytes(
                    data@.len() as u32,
                ) + data@ + envelope(cmd::CMD_STATUS)));
                assert(self.incoming() =~= old(self).incoming().skip(nb + 2));
            }
        }
        r
    }

    /// Close the opened file; the device acknowledges through a status
    /// query.
    pub fn file_close(&mut self) -> (r: Result<(), EdError>)
        requires
            old(self).state() == ConnState::Connected,
        ensures
            r is Ok ==> old(self).incoming().len() >= 2 && status_healthy(
                le16_val(old(self).incoming()[0], old(self).incoming()[1]),
            ) && exchanged(
                *old(self),
                *final(self),
                envelope(cmd::CMD_F_FCLOSE) + envelope(cmd::CMD_STATUS),
                2,
            ),
            r matches Err(e) ==> final(self).state() == old(self).state() && (e
                == EdError::Transport || e matches EdError::BadStatus(_)),
            r matches Err(EdError::BadStatus(w)) ==> old(self).incoming().len() >= 2 && w
                == le16_val(old(self).incoming()[0], old(self).incoming()[1]) && !status_healthy(w),
    {
        match self.tx_cmd(cmd::CMD_F_FCLOSE) {
            Ok(()) => {},
            Err(e) => {
                return Err(e);
            },
        }
        let r = self.check_status();
        proof {
            if r is Ok {
                assert(self.sent() =~= old(self).sent() + (envelope(cmd::CMD_F_FCLOSE) + envelope(
                    cmd::CMD_STATUS,
                )));
            }
        }
        r
    }
}

/// The device address of the running application's command FIFO.
pub const ADDR_FIFO: u32 = 0x1810000;

/// The bytes a memory-write command puts on the wire: envelope, 32-bit
/// address, 32-bit length, one zero flag byte, then the payload.
pub open spec fn mem_write_message(addr: u32, data: Seq<u8>) -> Seq<u8> {
    envelope(cmd::CMD_MEM_WR) + le32_bytes(addr) + le32_bytes(data.len() as u32) + seq![0u8] + data
}

/// The memory-write that pushes `data` into the application's command FIFO.
pub open spec fn fifo_message(data: Seq<u8>) -> Seq<u8> {
    mem_write_message(ADDR_FIFO, data)
}

impl<C: Channel> EDIO<C> {
    /// Write a buffer into device memory at an address; fire-and-forget, no
    /// acknowledgment is read.
    fn mem_wr(&mut self, addr: u32, buff: &[u8]) -> (r: Result<(), EdError>)
        requires
            buff@.len() <= u32::MAX,
        ensures
            r is Ok ==> sent_only(*old(self), *final(self), mem_write_message(addr, buff@)),
            r is Err ==> r == Err::<(), EdError>(EdError::Transport) && final(self).state()
                == old(self).state(),
    {
        match self.tx_cmd(cmd::CMD_MEM_WR) {
            Ok(()) => {},
            Err(e) => {
                return Err(e);
            },
        }
        match self.tx32(addr) {
            Ok(()) => {},
            Err(e) => {
                return Err(e);
            },
        }
        match self.tx32(buff.len() as u32) {
            Ok(()) => {},
            Err(e) => {
                return Err(e);
            },
        }
        match self.tx8(0) {
            Ok(()) => {},
            Err(e) => {
                return Err(e);
            },
        }
        let r = self.tx_data(buff);
        proof {
            if r is Ok {
                assert(self.sent() =~= old(self).sent() + mem_write_message(addr, buff@));
            }
        }
        r
    }

    /// Push a buffer into the application's command FIFO.
    fn fifo_wr(&mut self, buff: &[u8]) -> (r: Result<(), EdError>)
        requires
            buff@.len() <= u32::MAX,
        ensures
            r is Ok ==> sent_only(*old(self), *final(self), fifo_message(buff@)),
            r is Err ==> r == Err::<(), EdError>(EdError::Transport) && final(self).state()
                == old(self).state(),
    {
        self.mem_wr(ADDR_FIFO, buff)
    }

    /// Push a one-letter command, prefixed by the '*' marker, into the
    /// application's FIFO.
    pub fn fifo_cmd(&mut self, cmd: u8) -> (r: Result<(), EdError>)
        requires
            old(self).state() == ConnState::Connected,
        ensures
            r is Ok ==> sent_only(*old(self), *final(self), fifo_message(seq![0x2A, cmd])),
            r is Err ==> r == Err::<(), EdError>(EdError::Transport) && final(self).state()
                == old(self).state(),
    {
        let mut v: Vec<u8> = Vec::new();
        v.push(0x2A);
        v.push(cmd);
        proof {
            assert(v@ =~= seq![0x2Au8, cmd]);
        }
        self.fifo_wr(v.as_slice())
    }

    /// Push length-prefixed text through the FIFO: first the 16-bit byte
    /// length, then the UTF-8 bytes, as two FIFO writes.
    fn fifo_tx_str(&mut self, path: &str) -> (r: Result<(), EdError>)
        ensures
            r is Ok ==> encode_utf8(path@).len() <= 0xFFFF && sent_only(
                *old(self),
                *final(self),
                fifo_message(le16_bytes(encode_utf8(path@).len() as u16)) + fifo_message(
                    encode_utf8(path@),
                ),
            ),
            r matches Err(e) ==> final(self).state() == old(self).state() && (e
                == EdError::Transport || e == EdError::TooLong),
            r == Err::<(), EdError>(EdError::TooLong) ==> encode_utf8(path@).len() > 0xFFFF,
    {
        let bytes = path.as_bytes_vec();
        if bytes.len() > 0xFFFF {
            return Err(EdError::TooLong);
        }
        let lenv = encode_u16(bytes.len() as u16);
        match self.fifo_wr(lenv.as_slice()) {
            Ok(()) => {},
            Err(e) => {
                return Err(e);
            },
        }
        let r = self.fifo_wr(bytes.as_slice());
        proof {
            if r is Ok {
                assert(self.sent() =~= old(self).sent() + (fifo_message(
                    le16_bytes(encode_utf8(path@).len() as u16),
                ) + fifo_message(encode_utf8(path@))));
            }
        }
        r
    }

    /// Tell the running application to start the selected game.
    pub fn run_game(&mut self) -> (r: Result<(), EdError>)
        requires
            old(self).state() == ConnState::Connected,
        ensures
            r is Ok ==> sent_only(*old(self), *final(self), fifo_message(seq![0x2A, 0x73])),
            r is Err ==> r == Err::<(), EdError>(EdError::Transport) && final(self).state()
                == old(self).state(),
    {
        self.fifo_cmd(0x73)
    }

    /// Select a game by path through the FIFO; the application answers with
    /// a result byte (nonzero is `DeviceError`) followed by the game's
    /// 16-bit mapper id.
    pub fn sel_game(&mut self, path: &str) -> (r: Result<u16, EdError>)
        requires
            old(self).state() == ConnState::Connected,
        ensures
            r matches Ok(mapper) ==> encode_utf8(path@).len() <= 0xFFFF && old(
                self,
            ).incoming().len() >= 3 && old(self).incoming()[0] == 0 && mapper == le16_val(
                old(self).incoming()[1],
                old(self).incoming()[2],
            ) && exchanged(
                *old(self),
                *final(self),
                fifo_message(seq![0x2A, 0x6E]) + fifo_message(
                    le16_bytes(encode_utf8(path@).len() as u16),
                ) + fifo_message(encode_utf8(path@)),
                3,
            ),
            r matches Err(e) ==> final(self).state() == old(self).state() && (e
                == EdError::Transport || e == EdError::TooLong || e matches EdError::DeviceError(
                _,
            )),
            r == Err::<u16, EdError>(EdError::TooLong) ==> encode_utf8(path@).len() > 0xFFFF,
            r matches Err(EdError::DeviceError(b)) ==> b != 0 && old(self).incoming().len() >= 1
                && b == old(self).incoming()[0],
    {
        match self.fifo_cmd(0x6E) {
            Ok(()) => {},
            Err(e) => {
                return Err(e);
            },
        }
        match self.fifo_tx_str(path) {
            Ok(()) => {},
            Err(e) => {
                return Err(e);
            },
        }
        let response = match self.rx8() {
            Ok(v) => v,
            Err(e) => {
                return Err(e);
            },
        };
        if response != 0 {
            return Err(EdError::DeviceError(response));
        }
        let mapper = match self.rx16() {
            Ok(v) => v,
            Err(e) => {
                return Err(e);
            },
        };
        proof {
            assert(self.sent() =~= old(self).sent() + (fifo_message(seq![0x2A, 0x6E])
                + fifo_message(le16_bytes(encode_utf8(path@).len() as u16)) + fifo_message(
                encode_utf8(path@),
            )));
            assert(self.incoming() =~= old(self).incoming().skip(3));
        }
        Ok(mapper)
    }
}

/// A clock reading decoded from the device's BCD real-time clock registers.
#[derive(Clone, Copy, Debug, PartialEq, Eq, Structural)]
pub struct RtcTime {
    pub year: u16,
    pub month: u8,
    pub day: u8,
    pub hour: u8,
    pub minute: u8,
    pub second: u8,
}

impl<C: Channel> EDIO<C> {
    /// Read the real-time clock: six BCD bytes — year since 2000, month,
    /// day, hour, minute, second.
    pub fn rtc_get(&mut self) -> (r: Result<RtcTime, EdError>)
        requires
            old(self).state() == ConnState::Connected,
        ensures
            r matches Ok(t) ==> old(self).incoming().len() >= 6 && t.year == 2000 + bcd_value(
                old(self).incoming()[0],
            ) && t.month == bcd_value(old(self).incoming()[1]) && t.day == bcd_value(
                old(self).incoming()[2],
            ) && t.hour == bcd_value(old(self).incoming()[3]) && t.minute == bcd_value(
                old(self).incoming()[4],
            ) && t.second == bcd_value(old(self).incoming()[5]) && exchanged(
                *old(self),
                *final(self),
                envelope(cmd::CMD_RTC_GET),
                6,
            ),
            r is Err ==> r == Err::<RtcTime, EdError>(EdError::Transport) && final(self).state()
                == old(self).state(),
    {
        match self.tx_cmd(cmd::CMD_RTC_GET) {
            Ok(()) => {},
            Err(e) => {
                return Err(e);
            },
        }
        let b = match self.rx_data(6) {
            Ok(d) => d,
            Err(e) => {
                return Err(e);
            },
        };
        Ok(
            RtcTime {
                year: 2000 + hex2dec(b[0]) as u16,
                month: hex2dec(b[1]),
                day: hex2dec(b[2]),
                hour: hex2dec(b[3]),
                minute: hex2dec(b[4]),
                second: hex2dec(b[5]),
            },
        )
    }
}

} // verus!
