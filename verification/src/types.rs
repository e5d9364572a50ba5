//! Data model of the looper core: play and record modes, recorded layers,
//! loopers, control commands and the state snapshot published once per block,
//! together with their mathematical views.

use vstd::prelude::*;

verus! {

/// Whether a looper's recorded layers are mixed into the output.
#[derive(Clone, Copy, Debug, PartialEq, Eq, Structural)]
pub enum PlayMode {
    Paused,
    Playing,
}

/// Recording state of a looper. `Off` is the idle state; `Ready` is armed:
/// actual recording starts only once the input signal crosses the amplitude
/// threshold.
#[derive(Clone, Copy, Debug, PartialEq, Eq, Structural)]
pub enum RecordMode {
    Off,
    Ready,
    Record,
    Overdub,
}

impl PlayMode {
    /// Wire code of the mode, as carried in a state snapshot.
    pub open spec fn spec_code(self) -> i32 {
        match self {
            PlayMode::Paused => 0,
            PlayMode::Playing => 1,
        }
    }

    pub fn code(self) -> (r: i32)
        ensures
            r == self.spec_code(),
    {
        match self {
            PlayMode::Paused => 0,
            PlayMode::Playing => 1,
        }
    }
}

impl RecordMode {
    /// Wire code of the mode, as carried in a state snapshot.
    pub open spec fn spec_code(self) -> i32 {
        match self {
            RecordMode::Off => 0,
            RecordMode::Ready => 1,
            RecordMode::Record => 2,
            RecordMode::Overdub => 3,
        }
    }

    pub fn code(self) -> (r: i32)
        ensures
            r == self.spec_code(),
    {
        match self {
            RecordMode::Off => 0,
            RecordMode::Ready => 1,
            RecordMode::Record => 2,
            RecordMode::Overdub => 3,
        }
    }
}

/// One recorded pass of stereo audio within a looper. Both channels always
/// hold the same number of samples.
pub struct LoopBufferLayer {
    pub left: Vec<i64>,
    pub right: Vec<i64>,
}

/// Mathematical view of a layer: the two sample sequences.
#[verifier::ext_equal]
pub ghost struct LayerView {
    pub left: Seq<i64>,
    pub right: Seq<i64>,
}

impl LayerView {
    /// Both channels hold the same number of samples.
    pub open spec fn wf(self) -> bool {
        self.left.len() == self.right.len()
    }

    /// The layer with no samples yet.
    pub open spec fn empty() -> LayerView {
        LayerView { left: Seq::empty(), right: Seq::empty() }
    }
}

impl View for LoopBufferLayer {
    type V = LayerView;

    open spec fn view(&self) -> LayerView {
        LayerView { left: self.left@, right: self.right@ }
    }
}

/// One independent loop track: its identity, its recorded layers in overdub
/// order (layer 0 is canonical: its length defines the loop period), and its
/// record/play state.
pub struct Looper {
    pub id: u32,
    pub layers: Vec<LoopBufferLayer>,
    pub play_mode: PlayMode,
    pub record_mode: RecordMode,
}

/// Mathematical view of a looper.
#[verifier::ext_equal]
pub ghost struct LooperView {
    pub id: u32,
    pub layers: Seq<LayerView>,
    pub play_mode: PlayMode,
    pub record_mode: RecordMode,
}

impl LooperView {
    pub open spec fn wf(self) -> bool {
        forall|j: int| 0 <= j < self.layers.len() ==> #[trigger] self.layers[j].wf()
    }

    /// A freshly created looper: no layers, paused, not recording.
    pub open spec fn init(id: u32) -> LooperView {
        LooperView {
            id,
            layers: Seq::empty(),
            play_mode: PlayMode::Paused,
            record_mode: RecordMode::Off,
        }
    }
}

impl View for Looper {
    type V = LooperView;

    open spec fn view(&self) -> LooperView {
        LooperView {
            id: self.id,
            layers: self.layers@.map_values(|l: LoopBufferLayer| l@),
            play_mode: self.play_mode,
            record_mode: self.record_mode,
        }
    }
}

impl Looper {
    pub fn new(id: u32) -> (r: Looper)
        ensures
            r@ == LooperView::init(id),
    {
        let looper = Looper {
            id,
            layers: Vec::new(),
            play_mode: PlayMode::Paused,
            record_mode: RecordMode::Off,
        };
        proof {
            assert(looper@.layers =~= Seq::<LayerView>::empty());
            assert(looper@ =~= LooperView::init(id));
        }
        looper
    }

    pub fn set_record_mode(&mut self, mode: RecordMode)
        ensures
            *final(self) == (Looper { record_mode: mode, ..*old(self) }),
            final(self)@ == (LooperView { record_mode: mode, ..old(self)@ }),
    {
        self.record_mode = mode;
    }

    pub fn set_play_mode(&mut self, mode: PlayMode)
        ensures
            *final(self) == (Looper { play_mode: mode, ..*old(self) }),
    {
        self.play_mode = mode;
    }
}

/// The command types that target one or more loopers.
#[derive(Clone, Copy, Debug, PartialEq, Eq, Structural)]
pub enum LooperCommandType {
    EnableReady,
    EnableRecord,
    DisableRecord,
    EnableOverdub,
    DisableOverdub,
    EnableMultiply,
    DisableMultiply,
    EnablePlay,
    DisablePlay,
    Select,
    Delete,
}

impl LooperCommandType {
    /// Wire code of the command type.
    pub open spec fn spec_code(self) -> i32 {
        match self {
            LooperCommandType::EnableReady => 0,
            LooperCommandType::EnableRecord => 1,
            LooperCommandType::DisableRecord => 2,
            LooperCommandType::EnableOverdub => 3,
            LooperCommandType::DisableOverdub => 4,
            LooperCommandType::EnableMultiply => 5,
            LooperCommandType::DisableMultiply => 6,
            LooperCommandType::EnablePlay => 7,
            LooperCommandType::DisablePlay => 8,
            LooperCommandType::Select => 9,
            LooperCommandType::Delete => 10,
        }
    }

    pub fn code(self) -> (r: i32)
        ensures
            r == self.spec_code(),
    {
        match self {
            LooperCommandType::EnableReady => 0,
            LooperCommandType::EnableRecord => 1,
            LooperCommandType::DisableRecord => 2,
            LooperCommandType::EnableOverdub => 3,
            LooperCommandType::DisableOverdub => 4,
            LooperCommandType::EnableMultiply => 5,
            LooperCommandType::DisableMultiply => 6,
            LooperCommandType::EnablePlay => 7,
            LooperCommandType::DisablePlay => 8,
            LooperCommandType::Select => 9,
            LooperCommandType::Delete => 10,
        }
    }

    /// Decode of a wire code. Every code outside the closed enumeration is
    /// rejected, never defaulted to a valid variant.
    pub open spec fn spec_from_code(code: i32) -> Option<LooperCommandType> {
        if code == 0 {
            Some(LooperCommandType::EnableReady)
        } else if code == 1 {
            Some(LooperCommandType::EnableRecord)
        } else if code == 2 {
            Some(LooperCommandType::DisableRecord)
        } else if code == 3 {
            Some(LooperCommandType::EnableOverdub)
        } else if code == 4 {
            Some(LooperCommandType::DisableOverdub)
        } else if code == 5 {
            Some(LooperCommandType::EnableMultiply)
        } else if code == 6 {
            Some(LooperCommandType::DisableMultiply)
        } else if code == 7 {
            Some(LooperCommandType::EnablePlay)
        } else if code == 8 {
            Some(LooperCommandType::DisablePlay)
        } else if code == 9 {
            Some(LooperCommandType::Select)
        } else if code == 10 {
            Some(LooperCommandType::Delete)
        } else {
            None
        }
    }

    pub fn from_code(code: i32) -> (r: Option<LooperCommandType>)
        ensures
            r == LooperCommandType::spec_from_code(code),
    {
        if code == 0 {
            Some(LooperCommandType::EnableReady)
        } else if code == 1 {
            Some(LooperCommandType::EnableRecord)
        } else if code == 2 {
            Some(LooperCommandType::DisableRecord)
        } else if code == 3 {
            Some(LooperCommandType::EnableOverdub)
        } else if code == 4 {
            Some(LooperCommandType::DisableOverdub)
        } else if code == 5 {
            Some(LooperCommandType::EnableMultiply)
        } else if code == 6 {
            Some(LooperCommandType::DisableMultiply)
        } else if code == 7 {
            Some(LooperCommandType::EnablePlay)
        } else if code == 8 {
            Some(LooperCommandType::DisablePlay)
        } else if code == 9 {
            Some(LooperCommandType::Select)
        } else if code == 10 {
            Some(LooperCommandType::Delete)
        } else {
            None
        }
    }
}

/// The command types that act on the engine as a whole.
#[derive(Clone, Copy, Debug, PartialEq, Eq, Structural)]
pub enum GlobalCommandType {
    ResetTime,
    AddLooper,
}

impl GlobalCommandType {
    /// Wire code of the command type.
    pub open spec fn spec_code(self) -> i32 {
        match self {
            GlobalCommandType::ResetTime => 0,
            GlobalCommandType::AddLooper => 1,
        }
    }

    pub fn code(self) -> (r: i32)
        ensures
            r == self.spec_code(),
    {
        match self {
            GlobalCommandType::ResetTime => 0,
            GlobalCommandType::AddLooper => 1,
        }
    }

    /// Decode of a wire code; unknown codes are rejected.
    pub open spec fn spec_from_code(code: i32) -> Option<GlobalCommandType> {
        if code == 0 {
            Some(GlobalCommandType::ResetTime)
        } else if code == 1 {
            Some(GlobalCommandType::AddLooper)
        } else {
            None
        }
    }

    pub fn from_code(code: i32) -> (r: Option<GlobalCommandType>)
        ensures
            r == GlobalCommandType::spec_from_code(code),
    {
        if code == 0 {
            Some(GlobalCommandType::ResetTime)
        } else if code == 1 {
            Some(GlobalCommandType::AddLooper)
        } else {
            None
        }
    }
}

/// A command addressed to a list of loopers by id, with a raw command-type
/// code. Ids without a matching looper and unrecognized codes are ignored.
pub struct LooperCommand {
    pub loopers: Vec<u32>,
    pub command_type: i32,
}

/// A command addressed to the engine as a whole, with a raw command-type code.
pub struct GlobalCommand {
    pub command: i32,
}

/// The two kinds of payload a command can carry.
pub enum CommandOneof {
    LooperCommand(LooperCommand),
    GlobalCommand(GlobalCommand),
}

/// A control-plane message. A command without a payload is legal on the wire
/// and is ignored by the engine.
pub struct Command {
    pub command_oneof: Option<CommandOneof>,
}

/// Mathematical view of a command.
#[verifier::ext_equal]
pub ghost enum CommandView {
    /// No payload: the engine ignores the command.
    NoOp,
    /// Addressed to the loopers whose ids are listed, in order.
    Loopers { targets: Seq<u32>, code: i32 },
    /// Addressed to the engine as a whole.
    Global { code: i32 },
}

impl DeepView for Command {
    type V = CommandView;

    open spec fn deep_view(&self) -> CommandView {
        match self.command_oneof {
            Option::None => CommandView::NoOp,
            Option::Some(CommandOneof::LooperCommand(lc)) => CommandView::Loopers {
                targets: lc.loopers@,
                code: lc.command_type,
            },
            Option::Some(CommandOneof::GlobalCommand(gc)) => CommandView::Global {
                code: gc.command,
            },
        }
    }
}

impl Command {
    /// A command of the given type addressed to a single looper.
    pub fn looper_command(id: u32, typ: LooperCommandType) -> (r: Command)
        ensures
            r.deep_view() == (CommandView::Loopers {
                targets: seq![id],
                code: typ.spec_code(),
            }),
    {
        let mut loopers: Vec<u32> = Vec::new();
        loopers.push(id);
        let r = Command {
            command_oneof: Some(CommandOneof::LooperCommand(LooperCommand {
                loopers,
                command_type: typ.code(),
            })),
        };
        proof {
            assert(r.deep_view() matches CommandView::Loopers { targets, .. } && targets =~= seq![
                id,
            ]);
        }
        r
    }

    /// A command of the given type addressed to the engine as a whole.
    pub fn global_command(typ: GlobalCommandType) -> (r: Command)
        ensures
            r.deep_view() == (CommandView::Global { code: typ.spec_code() }),
    {
        Command {
            command_oneof: Some(CommandOneof::GlobalCommand(GlobalCommand {
                command: typ.code(),
            })),
        }
    }
}

/// Snapshot of one looper, as published to the control plane once per block.
/// `time` is the playback offset within the loop period and `length` the loop
/// period, both in milliseconds, truncated.
#[derive(Clone, Copy, Debug, PartialEq, Eq, Structural)]
pub struct LoopState {
    pub id: u32,
    pub record_mode: i32,
    pub play_mode: i32,
    pub time: i64,
    pub length: i64,
    pub active: bool,
}

/// Snapshot of the whole engine: one `LoopState` per looper, in looper order.
pub struct State {
    pub loops: Vec<LoopState>,
}

impl View for State {
    type V = Seq<LoopState>;

    open spec fn view(&self) -> Seq<LoopState> {
        self.loops@
    }
}

} // verus!
