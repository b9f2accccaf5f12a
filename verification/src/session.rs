//! The protocol of one decoding session.
//!
//! The engine itself lives outside this crate. Whoever owns the engine handle
//! performs the calls; the session decides, from what the previous call
//! reported, what happens next and records where the handle stands in its
//! life cycle.

use crate::error::{Error, ErrorKind};
use crate::picture::SSysMEMBuffer;
use vstd::prelude::*;

verus! {

/// The option that selects how much the engine logs.
pub const DECODER_OPTION_TRACE_LEVEL: i32 = 9;

/// The trace level at which the engine logs nothing.
pub const WELS_LOG_QUIET: i32 = 0;

/// Stands for the engine that is linked into the program.
#[derive(Debug, Clone, Copy, PartialEq, Eq, Structural)]
pub struct DynamicAPI;

impl DynamicAPI {
    /// The engine built from source together with the program.
    pub fn from_source() -> (api: Self)
        ensures
            api == DynamicAPI,
    {
        DynamicAPI
    }
}

/// Properties of the bit stream handed to the engine.
#[allow(non_snake_case)]
#[derive(Debug, Clone, Copy, PartialEq, Eq, Structural)]
pub struct SVideoProperty {
    /// Size of the structure as the engine counts it.
    pub size: u32,
    /// Kind of bit stream.
    pub eVideoBsType: i32,
}

impl Default for SVideoProperty {
    fn default() -> (p: Self)
        ensures
            p == (SVideoProperty { size: 0, eVideoBsType: 0 }),
    {
        SVideoProperty { size: 0, eVideoBsType: 0 }
    }
}

/// The configuration that a session hands to the engine when it initializes
/// the handle.
#[allow(non_snake_case)]
#[derive(Debug, Clone, Copy, PartialEq, Eq, Structural)]
pub struct SDecodingParam {
    /// Load the engine may put on the processor.
    pub uiCpuLoad: u32,
    /// Layer to decode.
    pub uiTargetDqLayer: u8,
    /// Error concealment mode.
    pub eEcActiveIdc: i32,
    /// Parse the stream without reconstructing pictures.
    pub bParseOnly: bool,
    /// Properties of the bit stream.
    pub sVideoProperty: SVideoProperty,
}

impl Default for SDecodingParam {
    fn default() -> (p: Self)
        ensures
            p == (SDecodingParam {
                uiCpuLoad: 0,
                uiTargetDqLayer: 0,
                eEcActiveIdc: 0,
                bParseOnly: false,
                sVideoProperty: SVideoProperty { size: 0, eVideoBsType: 0 },
            }),
    {
        SDecodingParam {
            uiCpuLoad: 0,
            uiTargetDqLayer: 0,
            eEcActiveIdc: 0,
            bParseOnly: false,
            sVideoProperty: SVideoProperty::default(),
        }
    }
}

/// What the engine reported about one decode call.
#[allow(non_snake_case)]
#[derive(Debug, Clone, Copy)]
pub struct SBufferInfo {
    /// Zero while no complete picture is ready.
    pub iBufferStatus: i32,
    /// Time stamp of the submitted data.
    pub uiInBsTimeStamp: u64,
    /// Time stamp of the picture handed out.
    pub uiOutYuvTimeStamp: u64,
    /// Geometry of the picture handed out.
    pub UsrData: SSysMEMBuffer,
    /// For each of the planes Y, U and V, whether the engine handed it out.
    pub pDst: [bool; 3],
}

/// Which entry points the dispatch table of an engine handle holds.
#[allow(non_snake_case)]
#[derive(Debug, Clone, Copy, PartialEq, Eq, Structural)]
pub struct ISVCDecoderVtbl {
    pub Initialize: bool,
    pub Uninitialize: bool,
    pub DecodeFrame: bool,
    pub DecodeFrameNoDelay: bool,
    pub DecodeFrame2: bool,
    pub FlushFrame: bool,
    pub DecodeParser: bool,
    pub DecodeFrameEx: bool,
    pub SetOption: bool,
    pub GetOption: bool,
}

/// Where an engine handle stands in its life cycle.
#[derive(Debug, Clone, Copy, PartialEq, Eq, Structural)]
pub enum SessionState {
    /// The engine handed out the handle; it is not configured yet.
    Created,
    /// The engine accepted the configuration; units can be decoded.
    Initialized,
    /// The engine refused the configuration. Nothing more may be asked of the handle.
    Failed,
    /// The handle has been released.
    Closed,
}

/// A call that releases a handle.
#[derive(Debug, Clone, Copy, PartialEq, Eq, Structural)]
pub enum ReleaseCall {
    /// Undo the initialization.
    Uninitialize,
    /// Give the handle back to the engine.
    Destroy,
}

/// The state in which closing leaves a session.
pub open spec fn state_after_close(state: SessionState) -> SessionState {
    if state == SessionState::Initialized {
        SessionState::Closed
    } else {
        state
    }
}

/// The calls that closing a session asks for, in order.
pub open spec fn release_calls(state: SessionState, vtbl: ISVCDecoderVtbl) -> Seq<ReleaseCall> {
    if state != SessionState::Initialized {
        seq![]
    } else if vtbl.Uninitialize {
        seq![ReleaseCall::Uninitialize, ReleaseCall::Destroy]
    } else {
        seq![ReleaseCall::Destroy]
    }
}

/// Why a session must not submit a unit, if anything stands against it.
pub open spec fn decode_refusal(state: SessionState, vtbl: ISVCDecoderVtbl) -> Option<ErrorKind> {
    if state != SessionState::Initialized {
        Some(ErrorKind::SessionNotOpen)
    } else if !vtbl.DecodeFrameNoDelay {
        Some(ErrorKind::MissingCapability)
    } else {
        None
    }
}

/// The report says that a complete picture is ready and names all three planes.
pub open spec fn picture_reported(info: SBufferInfo) -> bool {
    info.iBufferStatus != 0 && info.pDst[0] && info.pDst[1] && info.pDst[2]
}

/// One decoding session: the record of one engine handle.
pub struct Decoder {
    api: DynamicAPI,
    vtbl: ISVCDecoderVtbl,
    state: SessionState,
}

impl Decoder {
    /// Where the handle stands.
    pub closed spec fn spec_state(&self) -> SessionState {
        self.state
    }

    /// The entry points of the handle.
    pub closed spec fn spec_entry_points(&self) -> ISVCDecoderVtbl {
        self.vtbl
    }

    /// Where the handle stands.
    #[verifier::when_used_as_spec(spec_state)]
    pub fn state(&self) -> (s: SessionState)
        ensures
            s == self.spec_state(),
    {
        self.state
    }

    /// The entry points of the handle.
    #[verifier::when_used_as_spec(spec_entry_points)]
    pub fn entry_points(&self) -> (vtbl: ISVCDecoderVtbl)
        ensures
            vtbl == self.spec_entry_points(),
    {
        self.vtbl
    }

    /// Opens the record of a handle. `status` is what the engine's create call
    /// returned and `vtbl` the dispatch table of the handle it delivered.
    ///
    /// The session exists if the call succeeded and the handle can be initialized;
    /// with it comes the configuration to initialize the handle with.
    pub fn new(status: i64, vtbl: ISVCDecoderVtbl) -> (r: Result<(Decoder, SDecodingParam), Error>)
        ensures
            match r {
                Ok((session, config)) => {
                    &&& status == 0
                    &&& vtbl.Initialize
                    &&& session.state() == SessionState::Created
                    &&& session.entry_points() == vtbl
                    &&& config == (SDecodingParam {
                        uiCpuLoad: 0,
                        uiTargetDqLayer: 0,
                        eEcActiveIdc: 0,
                        bParseOnly: false,
                        sVideoProperty: SVideoProperty { size: 0, eVideoBsType: 0 },
                    })
                },
                Err(e) => if status != 0 {
                    e.kind == ErrorKind::EngineCreateFailed && e.message@
                        == "WelsCreateDecoder failed"@
                } else {
                    !vtbl.Initialize && e.kind == ErrorKind::MissingCapability && e.message@
                        == "Missing Initialize"@
                },
            },
    {
        let api = DynamicAPI::from_source();
        if status != 0 {
            return Err(Error::new(ErrorKind::EngineCreateFailed, "WelsCreateDecoder failed"));
        }
        if !vtbl.Initialize {
            return Err(Error::new(ErrorKind::MissingCapability, "Missing Initialize"));
        }
        Ok((Decoder { api, vtbl, state: SessionState::Created }, SDecodingParam::default()))
    }

    /// Records what the engine's initialize call returned.
    ///
    /// On success the session is initialized, and the result names the option
    /// and the value with which to silence the engine's log, if the handle has an
    /// entry point for options; whether that call succeeds does not matter.
    pub fn initialize(&mut self, status: i64) -> (r: Result<Option<(i32, i32)>, Error>)
        ensures
            final(self).entry_points() == old(self).entry_points(),
            match r {
                Ok(quiet) => {
                    &&& old(self).state() == SessionState::Created
                    &&& status == 0
                    &&& final(self).state() == SessionState::Initialized
                    &&& quiet == if old(self).entry_points().SetOption {
                        Some((DECODER_OPTION_TRACE_LEVEL, WELS_LOG_QUIET))
                    } else {
                        None
                    }
                },
                Err(e) => if old(self).state() != SessionState::Created {
                    &&& e.kind == ErrorKind::SessionNotOpen
                    &&& final(self).state() == old(self).state()
                } else {
                    &&& status != 0
                    &&& e.kind == ErrorKind::EngineInitFailed
                    &&& e.message@ == "Initialize failed"@
                    &&& final(self).state() == SessionState::Failed
                },
            },
    {
        if self.state != SessionState::Created {
            return Err(Error::new(ErrorKind::SessionNotOpen, "session is not awaiting Initialize"));
        }
        if status != 0 {
            self.state = SessionState::Failed;
            return Err(Error::new(ErrorKind::EngineInitFailed, "Initialize failed"));
        }
        self.state = SessionState::Initialized;
        if self.vtbl.SetOption {
            Ok(Some((DECODER_OPTION_TRACE_LEVEL, WELS_LOG_QUIET)))
        } else {
            Ok(None)
        }
    }

    /// Tells whether a unit may be submitted to the engine now.
    pub fn decode_request(&self) -> (r: Result<(), Error>)
        ensures
            match r {
                Ok(_) => decode_refusal(self.state(), self.entry_points()) is None,
                Err(e) => decode_refusal(self.state(), self.entry_points()) == Some(e.kind) && (
                e.kind == ErrorKind::MissingCapability ==> e.message@
                    == "DecodeFrameNoDelay missing"@),
            },
    {
        if self.state != SessionState::Initialized {
            return Err(Error::new(ErrorKind::SessionNotOpen, "session is not open"));
        }
        if !self.vtbl.DecodeFrameNoDelay {
            return Err(Error::new(ErrorKind::MissingCapability, "DecodeFrameNoDelay missing"));
        }
        Ok(())
    }

    /// Reads what the engine reported about the unit submitted last.
    ///
    /// The result is the geometry of a picture if the report says that a
    /// complete picture is ready and names all three planes; any other report
    /// means that the unit gave no picture yet.
    pub fn decode(&self, info: &SBufferInfo) -> (r: Result<Option<SSysMEMBuffer>, Error>)
        ensures
            match r {
                Ok(Some(geometry)) => {
                    &&& self.state() == SessionState::Initialized
                    &&& picture_reported(*info)
                    &&& geometry == info.UsrData
                },
                Ok(None) => self.state() == SessionState::Initialized && !picture_reported(*info),
                Err(e) => self.state() != SessionState::Initialized && e.kind
                    == ErrorKind::SessionNotOpen,
            },
    {
        if self.state != SessionState::Initialized {
            return Err(Error::new(ErrorKind::SessionNotOpen, "session is not open"));
        }
        if info.iBufferStatus != 0 {
            if !info.pDst[0] || !info.pDst[1] || !info.pDst[2] {
                return Ok(None);
            }
            Ok(Some(info.UsrData))
        } else {
            Ok(None)
        }
    }

    /// Closes the session and names the calls that release the handle, in order.
    ///
    /// An initialized session is released, whatever its decode calls reported:
    /// first the initialization is undone, if the handle has an entry point for
    /// that, then the handle is destroyed. In any other state no call is due and
    /// the state stays.
    pub fn close(&mut self) -> (calls: Vec<ReleaseCall>)
        ensures
            final(self).entry_points() == old(self).entry_points(),
            final(self).state() == state_after_close(old(self).state()),
            calls@ == release_calls(old(self).state(), old(self).entry_points()),
    {
        let mut calls: Vec<ReleaseCall> = Vec::new();
        if self.state == SessionState::Initialized {
            if self.vtbl.Uninitialize {
                calls.push(ReleaseCall::Uninitialize);
            }
            calls.push(ReleaseCall::Destroy);
            self.state = SessionState::Closed;
        }
        assert(calls@ =~= release_calls(old(self).state(), old(self).entry_points()));
        calls
    }
}

/// After `close` a session never decodes again: whatever state it was closed
/// in, it is not initialized afterwards, so that every request to submit a unit
/// is refused with `SessionNotOpen`, and no further release call is due.
pub proof fn lemma_closed_session_refuses(before: SessionState, vtbl: ISVCDecoderVtbl)
    ensures
        state_after_close(before) != SessionState::Initialized,
        decode_refusal(state_after_close(before), vtbl) == Some(ErrorKind::SessionNotOpen),
        release_calls(state_after_close(before), vtbl) == Seq::<ReleaseCall>::empty(),
        state_after_close(state_after_close(before)) == state_after_close(before),
{
}

} // verus!
