//! The bodies of the channel requests.

use crate::proto::wire::{
    append_ssh_bytes, append_var_int, bool_encoding, bool_extends, bool_parsed, bool_round_trip,
    read_bool, read_ssh_bytes, read_var_int, reads_or_stops, ssh_bytes_encoding, ssh_bytes_extends,
    ssh_bytes_parsed, ssh_bytes_parsed_fits, ssh_bytes_round_trip, ssh_string_len, stands,
    var_int_bytes, var_int_bytes_round_trip, var_int_extends, var_int_len, var_int_parsed,
    var_int_parsed_fits, write_bool, Error, Parsed, Reader, Stopped, MAX_VARINT,
};
use vstd::prelude::*;

verus! {

/// Whether a byte string can be written on the wire.
pub open spec fn bytes_encodable(bytes: Seq<u8>) -> bool {
    bytes.len() <= MAX_VARINT && bytes.len() <= usize::MAX
}

/// Asks for a pseudo-terminal.
#[derive(Clone, Debug, PartialEq, Eq)]
pub struct PtyRequest {
    pub term: Vec<u8>,
    pub char_width: u64,
    pub char_height: u64,
    pub pixel_width: u64,
    pub pixel_height: u64,
    pub encoded_terminal_modes: Vec<u8>,
}

/// The mathematical counterpart of [`PtyRequest`].
pub struct PtyRequestView {
    pub term: Seq<u8>,
    pub char_width: u64,
    pub char_height: u64,
    pub pixel_width: u64,
    pub pixel_height: u64,
    pub encoded_terminal_modes: Seq<u8>,
}

impl View for PtyRequest {
    type V = PtyRequestView;

    open spec fn view(&self) -> PtyRequestView {
        PtyRequestView {
            term: self.term@,
            char_width: self.char_width,
            char_height: self.char_height,
            pixel_width: self.pixel_width,
            pixel_height: self.pixel_height,
            encoded_terminal_modes: self.encoded_terminal_modes@,
        }
    }
}

impl PtyRequestView {
    /// Whether every field can be written on the wire.
    pub open spec fn encodable(self) -> bool {
        &&& bytes_encodable(self.term)
        &&& self.char_width <= MAX_VARINT
        &&& self.char_height <= MAX_VARINT
        &&& self.pixel_width <= MAX_VARINT
        &&& self.pixel_height <= MAX_VARINT
        &&& bytes_encodable(self.encoded_terminal_modes)
    }

    pub open spec fn encoding(self) -> Seq<u8> {
        ssh_bytes_encoding(self.term)
            + var_int_bytes(self.char_width)
            + var_int_bytes(self.char_height)
            + var_int_bytes(self.pixel_width)
            + var_int_bytes(self.pixel_height)
            + ssh_bytes_encoding(self.encoded_terminal_modes)
    }

    pub open spec fn parsed(bytes: Seq<u8>) -> Parsed<PtyRequestView> {
        match ssh_bytes_parsed(bytes) {
            Err(error) => Err(error),
            Ok((term, rest)) => match var_int_parsed(rest) {
                Err(error) => Err(error),
                Ok((char_width, rest)) => match var_int_parsed(rest) {
                    Err(error) => Err(error),
                    Ok((char_height, rest)) => match var_int_parsed(rest) {
                        Err(error) => Err(error),
                        Ok((pixel_width, rest)) => match var_int_parsed(rest) {
                            Err(error) => Err(error),
                            Ok((pixel_height, rest)) => match ssh_bytes_parsed(rest) {
                                Err(error) => Err(error),
                                Ok((encoded_terminal_modes, rest)) => Ok(
                                    (
                                        PtyRequestView {
                                            term,
                                            char_width,
                                            char_height,
                                            pixel_width,
                                            pixel_height,
                                            encoded_terminal_modes,
                                        },
                                        rest,
                                    ),
                                ),
                            },
                        },
                    },
                },
            },
        }
    }

    /// The encoding of a request reads back as the request, whatever bytes follow it.
    pub proof fn round_trip(self, rest: Seq<u8>)
        requires
            self.encodable(),
        ensures
            Self::parsed(self.encoding() + rest) == Ok::<(PtyRequestView, Seq<u8>), Stopped>(
                (self, rest),
            ),
    {
        ssh_bytes_round_trip(self.encoded_terminal_modes, rest);
        let tail_5 = ssh_bytes_encoding(self.encoded_terminal_modes) + rest;
        var_int_bytes_round_trip(self.pixel_height, tail_5);
        let tail_4 = var_int_bytes(self.pixel_height) + tail_5;
        var_int_bytes_round_trip(self.pixel_width, tail_4);
        let tail_3 = var_int_bytes(self.pixel_width) + tail_4;
        var_int_bytes_round_trip(self.char_height, tail_3);
        let tail_2 = var_int_bytes(self.char_height) + tail_3;
        var_int_bytes_round_trip(self.char_width, tail_2);
        let tail_1 = var_int_bytes(self.char_width) + tail_2;
        ssh_bytes_round_trip(self.term, tail_1);
        let tail_0 = ssh_bytes_encoding(self.term) + tail_1;
        assert(self.encoding() + rest =~= tail_0);
    }

    /// Whatever parses can be encoded again.
    pub proof fn parsed_encodable(bytes: Seq<u8>)
        ensures
            Self::parsed(bytes) matches Ok((value, rest)) ==> value.encodable() && rest.len()
                <= bytes.len(),
            Self::parsed(bytes) matches Err((_, rest)) ==> rest.len() <= bytes.len(),
    {
        ssh_bytes_parsed_fits(bytes);
        if let Ok((_, after_term)) = ssh_bytes_parsed(bytes) {
            var_int_parsed_fits(after_term);
            if let Ok((_, after_char_width)) = var_int_parsed(after_term) {
                var_int_parsed_fits(after_char_width);
                if let Ok((_, after_char_height)) = var_int_parsed(after_char_width) {
                    var_int_parsed_fits(after_char_height);
                    if let Ok((_, after_pixel_width)) = var_int_parsed(after_char_height) {
                        var_int_parsed_fits(after_pixel_width);
                        if let Ok((_, after_pixel_height)) = var_int_parsed(after_pixel_width) {
                            ssh_bytes_parsed_fits(after_pixel_height);
                        }
                    }
                }
            }
        }
    }

    /// A parse stands when more bytes follow.
    pub proof fn extends(bytes: Seq<u8>, more: Seq<u8>)
        ensures
            stands(Self::parsed(bytes), Self::parsed(bytes + more), more),
    {
        ssh_bytes_extends(bytes, more);
        if let Ok((_, after_term)) = ssh_bytes_parsed(bytes) {
            var_int_extends(after_term, more);
            if let Ok((_, after_char_width)) = var_int_parsed(after_term) {
                var_int_extends(after_char_width, more);
                if let Ok((_, after_char_height)) = var_int_parsed(after_char_width) {
                    var_int_extends(after_char_height, more);
                    if let Ok((_, after_pixel_width)) = var_int_parsed(after_char_height) {
                        var_int_extends(after_pixel_width, more);
                        if let Ok((_, after_pixel_height)) = var_int_parsed(after_pixel_width) {
                            ssh_bytes_extends(after_pixel_height, more);
                        }
                    }
                }
            }
        }
    }
}

impl PtyRequest {
    pub(crate) fn parse(reader: &mut Reader) -> (result: Result<Self, Error>)
        ensures
            reads_or_stops(
                result,
                |value: PtyRequest| value@,
                final(reader)@,
                PtyRequestView::parsed(old(reader)@),
            ),
    {
        let term: Vec<u8> = read_ssh_bytes(reader)?;
        let char_width: u64 = read_var_int(reader)?;
        let char_height: u64 = read_var_int(reader)?;
        let pixel_width: u64 = read_var_int(reader)?;
        let pixel_height: u64 = read_var_int(reader)?;
        let encoded_terminal_modes: Vec<u8> = read_ssh_bytes(reader)?;
        Ok(
            PtyRequest {
                term,
                char_width,
                char_height,
                pixel_width,
                pixel_height,
                encoded_terminal_modes,
            },
        )
    }

    pub(crate) fn encoded_len(&self) -> (length: usize)
        requires
            self@.encodable(),
            self@.encoding().len() <= usize::MAX,
        ensures
            length == self@.encoding().len(),
    {
        ssh_string_len(&self.term) + var_int_len(self.char_width) + var_int_len(self.char_height)
            + var_int_len(self.pixel_width) + var_int_len(self.pixel_height)
            + ssh_string_len(&self.encoded_terminal_modes)
    }

    pub(crate) fn encode(&self, out: &mut Vec<u8>)
        requires
            self@.encodable(),
        ensures
            final(out)@ == old(out)@ + self@.encoding(),
    {
        append_ssh_bytes(out, &self.term);
        append_var_int(out, self.char_width);
        append_var_int(out, self.char_height);
        append_var_int(out, self.pixel_width);
        append_var_int(out, self.pixel_height);
        append_ssh_bytes(out, &self.encoded_terminal_modes);
        proof {
            assert(out@ =~= old(out)@ + self@.encoding());
        }
    }
}

/// Asks for X11 forwarding.
#[derive(Clone, Debug, PartialEq, Eq)]
pub struct X11Request {
    pub single_connection: bool,
    pub x11_authentication_protocol: Vec<u8>,
    pub x11_authentication_cookie: Vec<u8>,
    pub x11_screen_number: u64,
}

/// The mathematical counterpart of [`X11Request`].
pub struct X11RequestView {
    pub single_connection: bool,
    pub x11_authentication_protocol: Seq<u8>,
    pub x11_authentication_cookie: Seq<u8>,
    pub x11_screen_number: u64,
}

impl View for X11Request {
    type V = X11RequestView;

    open spec fn view(&self) -> X11RequestView {
        X11RequestView {
            single_connection: self.single_connection,
            x11_authentication_protocol: self.x11_authentication_protocol@,
            x11_authentication_cookie: self.x11_authentication_cookie@,
            x11_screen_number: self.x11_screen_number,
        }
    }
}

impl X11RequestView {
    /// Whether every field can be written on the wire.
    pub open spec fn encodable(self) -> bool {
        &&& bytes_encodable(self.x11_authentication_protocol)
        &&& bytes_encodable(self.x11_authentication_cookie)
        &&& self.x11_screen_number <= MAX_VARINT
    }

    pub open spec fn encoding(self) -> Seq<u8> {
        bool_encoding(self.single_connection)
            + ssh_bytes_encoding(self.x11_authentication_protocol)
            + ssh_bytes_encoding(self.x11_authentication_cookie)
            + var_int_bytes(self.x11_screen_number)
    }

    pub open spec fn parsed(bytes: Seq<u8>) -> Parsed<X11RequestView> {
        match bool_parsed(bytes) {
            Err(error) => Err(error),
            Ok((single_connection, rest)) => match ssh_bytes_parsed(rest) {
                Err(error) => Err(error),
                Ok((x11_authentication_protocol, rest)) => match ssh_bytes_parsed(rest) {
                    Err(error) => Err(error),
                    Ok((x11_authentication_cookie, rest)) => match var_int_parsed(rest) {
                        Err(error) => Err(error),
                        Ok((x11_screen_number, rest)) => Ok(
                            (
                                X11RequestView {
                                    single_connection,
                                    x11_authentication_protocol,
                                    x11_authentication_cookie,
                                    x11_screen_number,
                                },
                                rest,
                            ),
                        ),
                    },
                },
            },
        }
    }

    /// The encoding of a request reads back as the request, whatever bytes follow it.
    pub proof fn round_trip(self, rest: Seq<u8>)
        requires
            self.encodable(),
        ensures
            Self::parsed(self.encoding() + rest) == Ok::<(X11RequestView, Seq<u8>), Stopped>(
                (self, rest),
            ),
    {
        var_int_bytes_round_trip(self.x11_screen_number, rest);
        let tail_3 = var_int_bytes(self.x11_screen_number) + rest;
        ssh_bytes_round_trip(self.x11_authentication_cookie, tail_3);
        let tail_2 = ssh_bytes_encoding(self.x11_authentication_cookie) + tail_3;
        ssh_bytes_round_trip(self.x11_authentication_protocol, tail_2);
        let tail_1 = ssh_bytes_encoding(self.x11_authentication_protocol) + tail_2;
        bool_round_trip(self.single_connection, tail_1);
        let tail_0 = bool_encoding(self.single_connection) + tail_1;
        assert(self.encoding() + rest =~= tail_0);
    }

    /// Whatever parses can be encoded again.
    pub proof fn parsed_encodable(bytes: Seq<u8>)
        ensures
            Self::parsed(bytes) matches Ok((value, rest)) ==> value.encodable() && rest.len()
                <= bytes.len(),
            Self::parsed(bytes) matches Err((_, rest)) ==> rest.len() <= bytes.len(),
    {
        if let Ok((_, after_single_connection)) = bool_parsed(bytes) {
            ssh_bytes_parsed_fits(after_single_connection);
            if let Ok((_, after_x11_authentication_protocol)) = ssh_bytes_parsed(
                after_single_connection,
            ) {
                ssh_bytes_parsed_fits(after_x11_authentication_protocol);
                if let Ok((_, after_x11_authentication_cookie)) = ssh_bytes_parsed(
                    after_x11_authentication_protocol,
                ) {
                    var_int_parsed_fits(after_x11_authentication_cookie);
                }
            }
        }
    }

    /// A parse stands when more bytes follow.
    pub proof fn extends(bytes: Seq<u8>, more: Seq<u8>)
        ensures
            stands(Self::parsed(bytes), Self::parsed(bytes + more), more),
    {
        bool_extends(bytes, more);
        if let Ok((_, after_single_connection)) = bool_parsed(bytes) {
            ssh_bytes_extends(after_single_connection, more);
            if let Ok((_, after_x11_authentication_protocol)) = ssh_bytes_parsed(
                after_single_connection,
            ) {
                ssh_bytes_extends(after_x11_authentication_protocol, more);
                if let Ok((_, after_x11_authentication_cookie)) = ssh_bytes_parsed(
                    after_x11_authentication_protocol,
                ) {
                    var_int_extends(after_x11_authentication_cookie, more);
                }
            }
        }
    }
}

impl X11Request {
    pub(crate) fn parse(reader: &mut Reader) -> (result: Result<Self, Error>)
        ensures
            reads_or_stops(
                result,
                |value: X11Request| value@,
                final(reader)@,
                X11RequestView::parsed(old(reader)@),
            ),
    {
        let single_connection: bool = read_bool(reader)?;
        let x11_authentication_protocol: Vec<u8> = read_ssh_bytes(reader)?;
        let x11_authentication_cookie: Vec<u8> = read_ssh_bytes(reader)?;
        let x11_screen_number: u64 = read_var_int(reader)?;
        Ok(
            X11Request {
                single_connection,
                x11_authentication_protocol,
                x11_authentication_cookie,
                x11_screen_number,
            },
        )
    }

    pub(crate) fn encoded_len(&self) -> (length: usize)
        requires
            self@.encodable(),
            self@.encoding().len() <= usize::MAX,
        ensures
            length == self@.encoding().len(),
    {
        1 + ssh_string_len(&self.x11_authentication_protocol)
            + ssh_string_len(&self.x11_authentication_cookie) + var_int_len(self.x11_screen_number)
    }

    pub(crate) fn encode(&self, out: &mut Vec<u8>)
        requires
            self@.encodable(),
        ensures
            final(out)@ == old(out)@ + self@.encoding(),
    {
        write_bool(out, self.single_connection);
        append_ssh_bytes(out, &self.x11_authentication_protocol);
        append_ssh_bytes(out, &self.x11_authentication_cookie);
        append_var_int(out, self.x11_screen_number);
        proof {
            assert(out@ =~= old(out)@ + self@.encoding());
        }
    }
}

/// Asks for a command to be run.
#[derive(Clone, Debug, PartialEq, Eq)]
pub struct ExecRequest {
    pub command: Vec<u8>,
}

/// The mathematical counterpart of [`ExecRequest`].
pub struct ExecRequestView {
    pub command: Seq<u8>,
}

impl View for ExecRequest {
    type V = ExecRequestView;

    open spec fn view(&self) -> ExecRequestView {
        ExecRequestView {
            command: self.command@,
        }
    }
}

impl ExecRequestView {
    /// Whether every field can be written on the wire.
    pub open spec fn encodable(self) -> bool {
        &&& bytes_encodable(self.command)
    }

    pub open spec fn encoding(self) -> Seq<u8> {
        ssh_bytes_encoding(self.command)
    }

    pub open spec fn parsed(bytes: Seq<u8>) -> Parsed<ExecRequestView> {
        match ssh_bytes_parsed(bytes) {
            Err(error) => Err(error),
            Ok((command, rest)) => Ok((ExecRequestView { command }, rest)),
        }
    }

    /// The encoding of a request reads back as the request, whatever bytes follow it.
    pub proof fn round_trip(self, rest: Seq<u8>)
        requires
            self.encodable(),
        ensures
            Self::parsed(self.encoding() + rest) == Ok::<(ExecRequestView, Seq<u8>), Stopped>(
                (self, rest),
            ),
    {
        ssh_bytes_round_trip(self.command, rest);
    }

    /// Whatever parses can be encoded again.
    pub proof fn parsed_encodable(bytes: Seq<u8>)
        ensures
            Self::parsed(bytes) matches Ok((value, rest)) ==> value.encodable() && rest.len()
                <= bytes.len(),
            Self::parsed(bytes) matches Err((_, rest)) ==> rest.len() <= bytes.len(),
    {
        ssh_bytes_parsed_fits(bytes);
    }

    /// A parse stands when more bytes follow.
    pub proof fn extends(bytes: Seq<u8>, more: Seq<u8>)
        ensures
            stands(Self::parsed(bytes), Self::parsed(bytes + more), more),
    {
        ssh_bytes_extends(bytes, more);
    }
}

impl ExecRequest {
    pub(crate) fn parse(reader: &mut Reader) -> (result: Result<Self, Error>)
        ensures
            reads_or_stops(
                result,
                |value: ExecRequest| value@,
                final(reader)@,
                ExecRequestView::parsed(old(reader)@),
            ),
    {
        let command: Vec<u8> = read_ssh_bytes(reader)?;
        Ok(ExecRequest { command })
    }

    pub(crate) fn encoded_len(&self) -> (length: usize)
        requires
            self@.encodable(),
            self@.encoding().len() <= usize::MAX,
        ensures
            length == self@.encoding().len(),
    {
        ssh_string_len(&self.command)
    }

    pub(crate) fn encode(&self, out: &mut Vec<u8>)
        requires
            self@.encodable(),
        ensures
            final(out)@ == old(out)@ + self@.encoding(),
    {
        append_ssh_bytes(out, &self.command);
        proof {
            assert(out@ =~= old(out)@ + self@.encoding());
        }
    }
}

/// Asks for a named subsystem.
#[derive(Clone, Debug, PartialEq, Eq)]
pub struct SubsystemRequest {
    pub subsystem_name: Vec<u8>,
}

/// The mathematical counterpart of [`SubsystemRequest`].
pub struct SubsystemRequestView {
    pub subsystem_name: Seq<u8>,
}

impl View for SubsystemRequest {
    type V = SubsystemRequestView;

    open spec fn view(&self) -> SubsystemRequestView {
        SubsystemRequestView {
            subsystem_name: self.subsystem_name@,
        }
    }
}

impl SubsystemRequestView {
    /// Whether every field can be written on the wire.
    pub open spec fn encodable(self) -> bool {
        &&& bytes_encodable(self.subsystem_name)
    }

    pub open spec fn encoding(self) -> Seq<u8> {
        ssh_bytes_encoding(self.subsystem_name)
    }

    pub open spec fn parsed(bytes: Seq<u8>) -> Parsed<SubsystemRequestView> {
        match ssh_bytes_parsed(bytes) {
            Err(error) => Err(error),
            Ok((subsystem_name, rest)) => Ok((SubsystemRequestView { subsystem_name }, rest)),
        }
    }

    /// The encoding of a request reads back as the request, whatever bytes follow it.
    pub proof fn round_trip(self, rest: Seq<u8>)
        requires
            self.encodable(),
        ensures
            Self::parsed(self.encoding() + rest) == Ok::<
                (SubsystemRequestView, Seq<u8>),
                Stopped,
            >((self, rest)),
    {
        ssh_bytes_round_trip(self.subsystem_name, rest);
    }

    /// Whatever parses can be encoded again.
    pub proof fn parsed_encodable(bytes: Seq<u8>)
        ensures
            Self::parsed(bytes) matches Ok((value, rest)) ==> value.encodable() && rest.len()
                <= bytes.len(),
            Self::parsed(bytes) matches Err((_, rest)) ==> rest.len() <= bytes.len(),
    {
        ssh_bytes_parsed_fits(bytes);
    }

    /// A parse stands when more bytes follow.
    pub proof fn extends(bytes: Seq<u8>, more: Seq<u8>)
        ensures
            stands(Self::parsed(bytes), Self::parsed(bytes + more), more),
    {
        ssh_bytes_extends(bytes, more);
    }
}

impl SubsystemRequest {
    pub(crate) fn parse(reader: &mut Reader) -> (result: Result<Self, Error>)
        ensures
            reads_or_stops(
                result,
                |value: SubsystemRequest| value@,
                final(reader)@,
                SubsystemRequestView::parsed(old(reader)@),
            ),
    {
        let subsystem_name: Vec<u8> = read_ssh_bytes(reader)?;
        Ok(SubsystemRequest { subsystem_name })
    }

    pub(crate) fn encoded_len(&self) -> (length: usize)
        requires
            self@.encodable(),
            self@.encoding().len() <= usize::MAX,
        ensures
            length == self@.encoding().len(),
    {
        ssh_string_len(&self.subsystem_name)
    }

    pub(crate) fn encode(&self, out: &mut Vec<u8>)
        requires
            self@.encodable(),
        ensures
            final(out)@ == old(out)@ + self@.encoding(),
    {
        append_ssh_bytes(out, &self.subsystem_name);
        proof {
            assert(out@ =~= old(out)@ + self@.encoding());
        }
    }
}

/// Tells the new size of the terminal window.
#[derive(Clone, Copy, Debug, PartialEq, Eq, Structural)]
pub struct WindowChangeRequest {
    pub char_width: u64,
    pub char_height: u64,
    pub pixel_width: u64,
    pub pixel_height: u64,
}

impl View for WindowChangeRequest {
    type V = WindowChangeRequest;

    open spec fn view(&self) -> WindowChangeRequest {
        *self
    }
}

impl WindowChangeRequest {
    /// Whether every field can be written on the wire.
    pub open spec fn encodable(self) -> bool {
        &&& self.char_width <= MAX_VARINT
        &&& self.char_height <= MAX_VARINT
        &&& self.pixel_width <= MAX_VARINT
        &&& self.pixel_height <= MAX_VARINT
    }

    pub open spec fn encoding(self) -> Seq<u8> {
        var_int_bytes(self.char_width)
            + var_int_bytes(self.char_height)
            + var_int_bytes(self.pixel_width)
            + var_int_bytes(self.pixel_height)
    }

    pub open spec fn parsed(bytes: Seq<u8>) -> Parsed<WindowChangeRequest> {
        match var_int_parsed(bytes) {
            Err(error) => Err(error),
            Ok((char_width, rest)) => match var_int_parsed(rest) {
                Err(error) => Err(error),
                Ok((char_height, rest)) => match var_int_parsed(rest) {
                    Err(error) => Err(error),
                    Ok((pixel_width, rest)) => match var_int_parsed(rest) {
                        Err(error) => Err(error),
                        Ok((pixel_height, rest)) => Ok(
                            (
                                WindowChangeRequest {
                                    char_width,
                                    char_height,
                                    pixel_width,
                                    pixel_height,
                                },
                                rest,
                            ),
                        ),
                    },
                },
            },
        }
    }

    /// The encoding of a request reads back as the request, whatever bytes follow it.
    pub proof fn round_trip(self, rest: Seq<u8>)
        requires
            self.encodable(),
        ensures
            Self::parsed(self.encoding() + rest) == Ok::<(WindowChangeRequest, Seq<u8>), Stopped>(
                (self, rest),
            ),
    {
        var_int_bytes_round_trip(self.pixel_height, rest);
        let tail_3 = var_int_bytes(self.pixel_height) + rest;
        var_int_bytes_round_trip(self.pixel_width, tail_3);
        let tail_2 = var_int_bytes(self.pixel_width) + tail_3;
        var_int_bytes_round_trip(self.char_height, tail_2);
        let tail_1 = var_int_bytes(self.char_height) + tail_2;
        var_int_bytes_round_trip(self.char_width, tail_1);
        let tail_0 = var_int_bytes(self.char_width) + tail_1;
        assert(self.encoding() + rest =~= tail_0);
    }

    /// Whatever parses can be encoded again.
    pub proof fn parsed_encodable(bytes: Seq<u8>)
        ensures
            Self::parsed(bytes) matches Ok((value, rest)) ==> value.encodable() && rest.len()
                <= bytes.len(),
            Self::parsed(bytes) matches Err((_, rest)) ==> rest.len() <= bytes.len(),
    {
        var_int_parsed_fits(bytes);
        if let Ok((_, after_char_width)) = var_int_parsed(bytes) {
            var_int_parsed_fits(after_char_width);
            if let Ok((_, after_char_height)) = var_int_parsed(after_char_width) {
                var_int_parsed_fits(after_char_height);
                if let Ok((_, after_pixel_width)) = var_int_parsed(after_char_height) {
                    var_int_parsed_fits(after_pixel_width);
                }
            }
        }
    }

    /// A parse stands when more bytes follow.
    pub proof fn extends(bytes: Seq<u8>, more: Seq<u8>)
        ensures
            stands(Self::parsed(bytes), Self::parsed(bytes + more), more),
    {
        var_int_extends(bytes, more);
        if let Ok((_, after_char_width)) = var_int_parsed(bytes) {
            var_int_extends(after_char_width, more);
            if let Ok((_, after_char_height)) = var_int_parsed(after_char_width) {
                var_int_extends(after_char_height, more);
                if let Ok((_, after_pixel_width)) = var_int_parsed(after_char_height) {
                    var_int_extends(after_pixel_width, more);
                }
            }
        }
    }
}

impl WindowChangeRequest {
    pub(crate) fn parse(reader: &mut Reader) -> (result: Result<Self, Error>)
        ensures
            reads_or_stops(
                result,
                |value: WindowChangeRequest| value@,
                final(reader)@,
                WindowChangeRequest::parsed(old(reader)@),
            ),
    {
        let char_width: u64 = read_var_int(reader)?;
        let char_height: u64 = read_var_int(reader)?;
        let pixel_width: u64 = read_var_int(reader)?;
        let pixel_height: u64 = read_var_int(reader)?;
        Ok(WindowChangeRequest { char_width, char_height, pixel_width, pixel_height })
    }

    pub(crate) fn encoded_len(&self) -> (length: usize)
        requires
            self@.encodable(),
            self@.encoding().len() <= usize::MAX,
        ensures
            length == self@.encoding().len(),
    {
        var_int_len(self.char_width) + var_int_len(self.char_height) + var_int_len(self.pixel_width)
            + var_int_len(self.pixel_height)
    }

    pub(crate) fn encode(&self, out: &mut Vec<u8>)
        requires
            self@.encodable(),
        ensures
            final(out)@ == old(out)@ + self@.encoding(),
    {
        append_var_int(out, self.char_width);
        append_var_int(out, self.char_height);
        append_var_int(out, self.pixel_width);
        append_var_int(out, self.pixel_height);
        proof {
            assert(out@ =~= old(out)@ + self@.encoding());
        }
    }
}

/// Asks for a signal to be delivered to the session's process.
#[derive(Clone, Debug, PartialEq, Eq)]
pub struct SignalRequest {
    pub signal_name_without_sig: Vec<u8>,
}

/// The mathematical counterpart of [`SignalRequest`].
pub struct SignalRequestView {
    pub signal_name_without_sig: Seq<u8>,
}

impl View for SignalRequest {
    type V = SignalRequestView;

    open spec fn view(&self) -> SignalRequestView {
        SignalRequestView {
            signal_name_without_sig: self.signal_name_without_sig@,
        }
    }
}

impl SignalRequestView {
    /// Whether every field can be written on the wire.
    pub open spec fn encodable(self) -> bool {
        &&& bytes_encodable(self.signal_name_without_sig)
    }

    pub open spec fn encoding(self) -> Seq<u8> {
        ssh_bytes_encoding(self.signal_name_without_sig)
    }

    pub open spec fn parsed(bytes: Seq<u8>) -> Parsed<SignalRequestView> {
        match ssh_bytes_parsed(bytes) {
            Err(error) => Err(error),
            Ok((signal_name_without_sig, rest)) => Ok(
                (SignalRequestView { signal_name_without_sig }, rest),
            ),
        }
    }

    /// The encoding of a request reads back as the request, whatever bytes follow it.
    pub proof fn round_trip(self, rest: Seq<u8>)
        requires
            self.encodable(),
        ensures
            Self::parsed(self.encoding() + rest) == Ok::<(SignalRequestView, Seq<u8>), Stopped>(
                (self, rest),
            ),
    {
        ssh_bytes_round_trip(self.signal_name_without_sig, rest);
    }

    /// Whatever parses can be encoded again.
    pub proof fn parsed_encodable(bytes: Seq<u8>)
        ensures
            Self::parsed(bytes) matches Ok((value, rest)) ==> value.encodable() && rest.len()
                <= bytes.len(),
            Self::parsed(bytes) matches Err((_, rest)) ==> rest.len() <= bytes.len(),
    {
        ssh_bytes_parsed_fits(bytes);
    }

    /// A parse stands when more bytes follow.
    pub proof fn extends(bytes: Seq<u8>, more: Seq<u8>)
        ensures
            stands(Self::parsed(bytes), Self::parsed(bytes + more), more),
    {
        ssh_bytes_extends(bytes, more);
    }
}

impl SignalRequest {
    pub(crate) fn parse(reader: &mut Reader) -> (result: Result<Self, Error>)
        ensures
            reads_or_stops(
                result,
                |value: SignalRequest| value@,
                final(reader)@,
                SignalRequestView::parsed(old(reader)@),
            ),
    {
        let signal_name_without_sig: Vec<u8> = read_ssh_bytes(reader)?;
        Ok(SignalRequest { signal_name_without_sig })
    }

    pub(crate) fn encoded_len(&self) -> (length: usize)
        requires
            self@.encodable(),
            self@.encoding().len() <= usize::MAX,
        ensures
            length == self@.encoding().len(),
    {
        ssh_string_len(&self.signal_name_without_sig)
    }

    pub(crate) fn encode(&self, out: &mut Vec<u8>)
        requires
            self@.encodable(),
        ensures
            final(out)@ == old(out)@ + self@.encoding(),
    {
        append_ssh_bytes(out, &self.signal_name_without_sig);
        proof {
            assert(out@ =~= old(out)@ + self@.encoding());
        }
    }
}

/// Tells that the session's process exited.
#[derive(Clone, Copy, Debug, PartialEq, Eq, Structural)]
pub struct ExitStatusRequest {
    pub exit_status: u64,
}

impl View for ExitStatusRequest {
    type V = ExitStatusRequest;

    open spec fn view(&self) -> ExitStatusRequest {
        *self
    }
}

impl ExitStatusRequest {
    /// Whether every field can be written on the wire.
    pub open spec fn encodable(self) -> bool {
        &&& self.exit_status <= MAX_VARINT
    }

    pub open spec fn encoding(self) -> Seq<u8> {
        var_int_bytes(self.exit_status)
    }

    pub open spec fn parsed(bytes: Seq<u8>) -> Parsed<ExitStatusRequest> {
        match var_int_parsed(bytes) {
            Err(error) => Err(error),
            Ok((exit_status, rest)) => Ok((ExitStatusRequest { exit_status }, rest)),
        }
    }

    /// The encoding of a request reads back as the request, whatever bytes follow it.
    pub proof fn round_trip(self, rest: Seq<u8>)
        requires
            self.encodable(),
        ensures
            Self::parsed(self.encoding() + rest) == Ok::<(ExitStatusRequest, Seq<u8>), Stopped>(
                (self, rest),
            ),
    {
        var_int_bytes_round_trip(self.exit_status, rest);
    }

    /// Whatever parses can be encoded again.
    pub proof fn parsed_encodable(bytes: Seq<u8>)
        ensures
            Self::parsed(bytes) matches Ok((value, rest)) ==> value.encodable() && rest.len()
                <= bytes.len(),
            Self::parsed(bytes) matches Err((_, rest)) ==> rest.len() <= bytes.len(),
    {
        var_int_parsed_fits(bytes);
    }

    /// A parse stands when more bytes follow.
    pub proof fn extends(bytes: Seq<u8>, more: Seq<u8>)
        ensures
            stands(Self::parsed(bytes), Self::parsed(bytes + more), more),
    {
        var_int_extends(bytes, more);
    }
}

impl ExitStatusRequest {
    pub(crate) fn parse(reader: &mut Reader) -> (result: Result<Self, Error>)
        ensures
            reads_or_stops(
                result,
                |value: ExitStatusRequest| value@,
                final(reader)@,
                ExitStatusRequest::parsed(old(reader)@),
            ),
    {
        let exit_status: u64 = read_var_int(reader)?;
        Ok(ExitStatusRequest { exit_status })
    }

    pub(crate) fn encoded_len(&self) -> (length: usize)
        requires
            self@.encodable(),
            self@.encoding().len() <= usize::MAX,
        ensures
            length == self@.encoding().len(),
    {
        var_int_len(self.exit_status)
    }

    pub(crate) fn encode(&self, out: &mut Vec<u8>)
        requires
            self@.encodable(),
        ensures
            final(out)@ == old(out)@ + self@.encoding(),
    {
        append_var_int(out, self.exit_status);
        proof {
            assert(out@ =~= old(out)@ + self@.encoding());
        }
    }
}

/// Tells that the session's process was ended by a signal.
#[derive(Clone, Debug, PartialEq, Eq)]
pub struct ExitSignalRequest {
    pub signal_name_without_sig: Vec<u8>,
    pub core_dumped: bool,
    pub error_message_utf8: Vec<u8>,
    pub language_tag: Vec<u8>,
}

/// The mathematical counterpart of [`ExitSignalRequest`].
pub struct ExitSignalRequestView {
    pub signal_name_without_sig: Seq<u8>,
    pub core_dumped: bool,
    pub error_message_utf8: Seq<u8>,
    pub language_tag: Seq<u8>,
}

impl View for ExitSignalRequest {
    type V = ExitSignalRequestView;

    open spec fn view(&self) -> ExitSignalRequestView {
        ExitSignalRequestView {
            signal_name_without_sig: self.signal_name_without_sig@,
            core_dumped: self.core_dumped,
            error_message_utf8: self.error_message_utf8@,
            language_tag: self.language_tag@,
        }
    }
}

impl ExitSignalRequestView {
    /// Whether every field can be written on the wire.
    pub open spec fn encodable(self) -> bool {
        &&& bytes_encodable(self.signal_name_without_sig)
        &&& bytes_encodable(self.error_message_utf8)
        &&& bytes_encodable(self.language_tag)
    }

    pub open spec fn encoding(self) -> Seq<u8> {
        ssh_bytes_encoding(self.signal_name_without_sig)
            + bool_encoding(self.core_dumped)
            + ssh_bytes_encoding(self.error_message_utf8)
            + ssh_bytes_encoding(self.language_tag)
    }

    pub open spec fn parsed(bytes: Seq<u8>) -> Parsed<ExitSignalRequestView> {
        match ssh_bytes_parsed(bytes) {
            Err(error) => Err(error),
            Ok((signal_name_without_sig, rest)) => match bool_parsed(rest) {
                Err(error) => Err(error),
                Ok((core_dumped, rest)) => match ssh_bytes_parsed(rest) {
                    Err(error) => Err(error),
                    Ok((error_message_utf8, rest)) => match ssh_bytes_parsed(rest) {
                        Err(error) => Err(error),
                        Ok((language_tag, rest)) => Ok(
                            (
                                ExitSignalRequestView {
                                    signal_name_without_sig,
                                    core_dumped,
                                    error_message_utf8,
                                    language_tag,
                                },
                                rest,
                            ),
                        ),
                    },
                },
            },
        }
    }

    /// The encoding of a request reads back as the request, whatever bytes follow it.
    pub proof fn round_trip(self, rest: Seq<u8>)
        requires
            self.encodable(),
        ensures
            Self::parsed(self.encoding() + rest) == Ok::<
                (ExitSignalRequestView, Seq<u8>),
                Stopped,
            >((self, rest)),
    {
        ssh_bytes_round_trip(self.language_tag, rest);
        let tail_3 = ssh_bytes_encoding(self.language_tag) + rest;
        ssh_bytes_round_trip(self.error_message_utf8, tail_3);
        let tail_2 = ssh_bytes_encoding(self.error_message_utf8) + tail_3;
        bool_round_trip(self.core_dumped, tail_2);
        let tail_1 = bool_encoding(self.core_dumped) + tail_2;
        ssh_bytes_round_trip(self.signal_name_without_sig, tail_1);
        let tail_0 = ssh_bytes_encoding(self.signal_name_without_sig) + tail_1;
        assert(self.encoding() + rest =~= tail_0);
    }

    /// Whatever parses can be encoded again.
    pub proof fn parsed_encodable(bytes: Seq<u8>)
        ensures
            Self::parsed(bytes) matches Ok((value, rest)) ==> value.encodable() && rest.len()
                <= bytes.len(),
            Self::parsed(bytes) matches Err((_, rest)) ==> rest.len() <= bytes.len(),
    {
        ssh_bytes_parsed_fits(bytes);
        if let Ok((_, after_signal_name_without_sig)) = ssh_bytes_parsed(bytes) {
            if let Ok((_, after_core_dumped)) = bool_parsed(after_signal_name_without_sig) {
                ssh_bytes_parsed_fits(after_core_dumped);
                if let Ok((_, after_error_message_utf8)) = ssh_bytes_parsed(after_core_dumped) {
                    ssh_bytes_parsed_fits(after_error_message_utf8);
                }
            }
        }
    }

    /// A parse stands when more bytes follow.
    pub proof fn extends(bytes: Seq<u8>, more: Seq<u8>)
        ensures
            stands(Self::parsed(bytes), Self::parsed(bytes + more), more),
    {
        ssh_bytes_extends(bytes, more);
        if let Ok((_, after_signal_name_without_sig)) = ssh_bytes_parsed(bytes) {
            bool_extends(after_signal_name_without_sig, more);
            if let Ok((_, after_core_dumped)) = bool_parsed(after_signal_name_without_sig) {
                ssh_bytes_extends(after_core_dumped, more);
                if let Ok((_, after_error_message_utf8)) = ssh_bytes_parsed(after_core_dumped) {
                    ssh_bytes_extends(after_error_message_utf8, more);
                }
            }
        }
    }
}

impl ExitSignalRequest {
    pub(crate) fn parse(reader: &mut Reader) -> (result: Result<Self, Error>)
        ensures
            reads_or_stops(
                result,
                |value: ExitSignalRequest| value@,
                final(reader)@,
                ExitSignalRequestView::parsed(old(reader)@),
            ),
    {
        let signal_name_without_sig: Vec<u8> = read_ssh_bytes(reader)?;
        let core_dumped: bool = read_bool(reader)?;
        let error_message_utf8: Vec<u8> = read_ssh_bytes(reader)?;
        let language_tag: Vec<u8> = read_ssh_bytes(reader)?;
        Ok(
            ExitSignalRequest {
                signal_name_without_sig,
                core_dumped,
                error_message_utf8,
                language_tag,
            },
        )
    }

    pub(crate) fn encoded_len(&self) -> (length: usize)
        requires
            self@.encodable(),
            self@.encoding().len() <= usize::MAX,
        ensures
            length == self@.encoding().len(),
    {
        ssh_string_len(&self.signal_name_without_sig) + 1 + ssh_string_len(&self.error_message_utf8)
            + ssh_string_len(&self.language_tag)
    }

    pub(crate) fn encode(&self, out: &mut Vec<u8>)
        requires
            self@.encodable(),
        ensures
            final(out)@ == old(out)@ + self@.encoding(),
    {
        append_ssh_bytes(out, &self.signal_name_without_sig);
        write_bool(out, self.core_dumped);
        append_ssh_bytes(out, &self.error_message_utf8);
        append_ssh_bytes(out, &self.language_tag);
        proof {
            assert(out@ =~= old(out)@ + self@.encoding());
        }
    }
}

} // verus!
