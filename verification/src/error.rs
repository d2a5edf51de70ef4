//! The error that every operation of this library reports: a chain of layers, outermost first.
//!
//! Most layers are plain text. A layer may also carry a value that callers look for, such as what
//! an incomplete cleanup left behind, or that the state of a device is in doubt.
use crate::block_device::{BlockCleanupState, BlockDeviceCleanupPending};
use crate::text::cat2;
use vstd::prelude::*;

verus! {

/// A Cloud Hypervisor API command that was never handed to the socket.
#[derive(Clone, Debug)]
pub struct ApiCommandNotDispatched {
    pub method: String,
    pub endpoint: String,
}

/// A device of which it is not known whether the hypervisor has it.
#[derive(Clone, Debug)]
pub struct DeviceStateInDoubt {
    pub device_id: String,
    pub reason: String,
}

/// The status that a Cloud Hypervisor server answered with.
#[derive(Clone, Copy, Debug, PartialEq, Eq, Structural)]
pub enum StatusCode {
    Continue,
    Success,
    NoContent,
    BadRequest,
    NotFound,
    TooManyRequests,
    InternalServerError,
    NotImplemented,
    Unknown,
}

/// Information about an ephemeral disk created on the host, needed for sandbox-level cleanup and
/// volume statistics mapping.
#[derive(Clone, Debug)]
pub struct EphemeralDiskInfo {
    pub tracking_id: u64,
    pub disk_path: String,
    pub source_path: String,
    /// Guest path passed to the agent for volume statistics queries.
    pub guest_stats_path: String,
    pub disk_created: bool,
    pub metadata_created: bool,
    pub device_id: Option<String>,
}

/// One layer of an [`Error`].
#[derive(Clone, Debug)]
pub enum Layer {
    /// Plain text.
    Message(String),
    /// The command was not dispatched; the layers below say why.
    NotDispatched { command: ApiCommandNotDispatched, text: String },
    /// The server answered with a status other than success.
    ServerResponse { status: StatusCode, text: String },
    /// What an incomplete cleanup of a block device left behind.
    CleanupPending(BlockDeviceCleanupPending),
    /// The state of a device is in doubt.
    InDoubt(DeviceStateInDoubt),
    /// The artifacts of an ephemeral disk are still to be cleaned.
    PendingDisk { disk: EphemeralDiskInfo, text: String },
    /// The failure of an operation that several callers wait for; the layers below are its own.
    Shared(String),
}

/// A failure: its layers, outermost first.
#[derive(Clone, Debug)]
pub struct Error {
    pub layers: Vec<Layer>,
}

/// The model of an [`EphemeralDiskInfo`].
pub struct DiskModel {
    pub tracking_id: u64,
    pub disk_path: Seq<char>,
    pub source_path: Seq<char>,
    pub guest_stats_path: Seq<char>,
    pub disk_created: bool,
    pub metadata_created: bool,
    pub device_id: Option<Seq<char>>,
}

/// The model of a [`Layer`].
pub enum LayerModel {
    Message(Seq<char>),
    NotDispatched { method: Seq<char>, endpoint: Seq<char>, text: Seq<char> },
    ServerResponse { status: StatusCode, text: Seq<char> },
    CleanupPending { node_name: Seq<char>, details: Seq<char>, state: BlockCleanupState },
    InDoubt { device_id: Seq<char>, reason: Seq<char> },
    PendingDisk { disk: DiskModel, text: Seq<char> },
    Shared(Seq<char>),
}

/// The model of an [`Error`].
pub type ErrorModel = Seq<LayerModel>;

impl DeepView for EphemeralDiskInfo {
    type V = DiskModel;

    open spec fn deep_view(&self) -> DiskModel {
        DiskModel {
            tracking_id: self.tracking_id,
            disk_path: self.disk_path@,
            source_path: self.source_path@,
            guest_stats_path: self.guest_stats_path@,
            disk_created: self.disk_created,
            metadata_created: self.metadata_created,
            device_id: self.device_id.deep_view(),
        }
    }
}

impl DeepView for Layer {
    type V = LayerModel;

    open spec fn deep_view(&self) -> LayerModel {
        match *self {
            Layer::Message(text) => LayerModel::Message(text@),
            Layer::NotDispatched { command, text } => LayerModel::NotDispatched {
                method: command.method@,
                endpoint: command.endpoint@,
                text: text@,
            },
            Layer::ServerResponse { status, text } => LayerModel::ServerResponse {
                status,
                text: text@,
            },
            Layer::CleanupPending(pending) => LayerModel::CleanupPending {
                node_name: pending.node_name@,
                details: pending.details@,
                state: pending.state,
            },
            Layer::InDoubt(doubt) => LayerModel::InDoubt {
                device_id: doubt.device_id@,
                reason: doubt.reason@,
            },
            Layer::PendingDisk { disk, text } => LayerModel::PendingDisk {
                disk: disk.deep_view(),
                text: text@,
            },
            Layer::Shared(text) => LayerModel::Shared(text@),
        }
    }
}

impl DeepView for Error {
    type V = ErrorModel;

    open spec fn deep_view(&self) -> ErrorModel {
        self.layers.deep_view()
    }
}

/// The text of one layer.
pub open spec fn layer_text(layer: LayerModel) -> Seq<char> {
    match layer {
        LayerModel::Message(text) => text,
        LayerModel::NotDispatched { text, .. } => text,
        LayerModel::ServerResponse { text, .. } => text,
        LayerModel::CleanupPending { node_name, details, .. } => "QEMU block device "@ + node_name
            + " cleanup remains incomplete: "@ + details,
        LayerModel::InDoubt { device_id, reason } => in_doubt_text(device_id, reason),
        LayerModel::PendingDisk { text, .. } => text,
        LayerModel::Shared(text) => text,
    }
}

/// The text of a layer that says that the state of a device is in doubt.
pub open spec fn in_doubt_text(device_id: Seq<char>, reason: Seq<char>) -> Seq<char> {
    "device "@ + device_id + " state is in doubt: "@ + reason
}

/// The text of an error: that of its outermost layer.
pub open spec fn error_text(error: ErrorModel) -> Seq<char> {
    if error.len() == 0 {
        seq![]
    } else {
        layer_text(error[0])
    }
}

/// The texts of all layers of an error, outermost first, with `": "` between neighbours.
pub open spec fn error_chain_text(error: ErrorModel) -> Seq<char>
    decreases error.len(),
{
    if error.len() == 0 {
        seq![]
    } else if error.len() == 1 {
        layer_text(error[0])
    } else {
        error_chain_text(error.drop_last()) + ": "@ + layer_text(error.last())
    }
}

/// An error of one plain layer.
pub open spec fn message(text: Seq<char>) -> ErrorModel {
    seq![LayerModel::Message(text)]
}

/// `error` below a layer of plain text.
pub open spec fn in_context(error: ErrorModel, text: Seq<char>) -> ErrorModel {
    message(text) + error
}

/// Whether a layer is the outermost one of a value that has causes of its own, so that what lies
/// below it is out of sight of a search for a value of the error itself.
pub open spec fn opens_causes(layer: LayerModel) -> bool {
    layer is NotDispatched || layer is Shared
}

/// The index of the first layer for which `p` holds, or the length where there is none.
pub open spec fn first_layer(error: ErrorModel, p: spec_fn(LayerModel) -> bool) -> int
    decreases error.len(),
{
    if error.len() == 0 {
        0
    } else if p(error[0]) {
        0
    } else {
        1 + first_layer(error.drop_first(), p)
    }
}

/// Where a search among all layers finds nothing, no layer is what it looked for; where it finds
/// one, every layer before it is not.
pub proof fn lemma_first_layer(error: ErrorModel, p: spec_fn(LayerModel) -> bool)
    ensures
        0 <= first_layer(error, p) <= error.len(),
        first_layer(error, p) < error.len() ==> p(error[first_layer(error, p)]),
        forall|i: int| 0 <= i < first_layer(error, p) ==> !p(#[trigger] error[i]),
    decreases error.len(),
{
    if error.len() > 0 && !p(error[0]) {
        lemma_first_layer(error.drop_first(), p);
        assert forall|i: int| 0 <= i < first_layer(error, p) implies !p(#[trigger] error[i]) by {
            if i > 0 {
                assert(error[i] == error.drop_first()[i - 1]);
            }
        }
    }
}

/// The first layer for which `p` holds is the one before which it holds nowhere.
pub proof fn lemma_first_layer_is(error: ErrorModel, p: spec_fn(LayerModel) -> bool, at: int)
    requires
        0 <= at <= error.len(),
        at < error.len() ==> p(error[at]),
        forall|i: int| 0 <= i < at ==> !p(#[trigger] error[i]),
    ensures
        first_layer(error, p) == at,
{
    lemma_first_layer(error, p);
    let found = first_layer(error, p);
    if found < at {
        assert(!p(error[found]));
    }
    if at < found {
        assert(!p(error[at]));
    }
}

/// The cleanup state that the first layer about a pending cleanup holds.
pub open spec fn cleanup_pending_in(error: ErrorModel) -> Option<BlockCleanupState> {
    let at = first_layer(error, |l: LayerModel| l is CleanupPending);
    if at < error.len() {
        Some(error[at]->CleanupPending_state)
    } else {
        None
    }
}

/// Whether some layer says that a device's state is in doubt.
pub open spec fn names_doubt(error: ErrorModel) -> bool {
    exists|i: int| 0 <= i < error.len() && (#[trigger] error[i]) is InDoubt
}

/// The device that the first layer in doubt names.
pub open spec fn device_in_doubt(error: ErrorModel) -> Option<Seq<char>> {
    let at = first_layer(error, |l: LayerModel| l is InDoubt);
    if at < error.len() {
        Some(error[at]->device_id)
    } else {
        None
    }
}

/// The disk that the first layer about a pending disk holds.
pub open spec fn pending_disk_in(error: ErrorModel) -> Option<DiskModel> {
    let at = first_layer(error, |l: LayerModel| l is PendingDisk);
    if at < error.len() {
        Some(error[at]->disk)
    } else {
        None
    }
}

/// The status of the server response that the error itself is, below any context around it.
pub open spec fn server_status(error: ErrorModel) -> Option<StatusCode> {
    let at = first_layer(error, |l: LayerModel| l is ServerResponse || opens_causes(l));
    if at < error.len() && error[at] is ServerResponse {
        Some(error[at]->status)
    } else {
        None
    }
}

impl EphemeralDiskInfo {
    /// A copy of the record.
    pub fn dup(&self) -> (r: EphemeralDiskInfo)
        ensures
            r.deep_view() == self.deep_view(),
    {
        EphemeralDiskInfo {
            tracking_id: self.tracking_id,
            disk_path: self.disk_path.clone(),
            source_path: self.source_path.clone(),
            guest_stats_path: self.guest_stats_path.clone(),
            disk_created: self.disk_created,
            metadata_created: self.metadata_created,
            device_id: dup_option(&self.device_id),
        }
    }
}

/// A copy of an optional text.
pub fn dup_option(s: &Option<String>) -> (r: Option<String>)
    ensures
        r.deep_view() == s.deep_view(),
{
    match s {
        Some(text) => Some(text.clone()),
        None => None,
    }
}

impl Layer {
    /// The text of the layer.
    pub fn text(&self) -> (r: String)
        ensures
            r@ == layer_text(self.deep_view()),
    {
        match self {
            Layer::Message(text) => text.clone(),
            Layer::NotDispatched { command: _, text } => text.clone(),
            Layer::ServerResponse { status: _, text } => text.clone(),
            Layer::CleanupPending(pending) => pending.to_text(),
            Layer::InDoubt(doubt) => cat2("device ", doubt.device_id.as_str()).concat(
                " state is in doubt: ",
            ).concat(doubt.reason.as_str()),
            Layer::PendingDisk { disk: _, text } => text.clone(),
            Layer::Shared(text) => text.clone(),
        }
    }

    fn dup(&self) -> (r: Layer)
        ensures
            r.deep_view() == self.deep_view(),
    {
        match self {
            Layer::Message(text) => Layer::Message(text.clone()),
            Layer::NotDispatched { command, text } => Layer::NotDispatched {
                command: ApiCommandNotDispatched {
                    method: command.method.clone(),
                    endpoint: command.endpoint.clone(),
                },
                text: text.clone(),
            },
            Layer::ServerResponse { status, text } => Layer::ServerResponse {
                status: *status,
                text: text.clone(),
            },
            Layer::CleanupPending(pending) => Layer::CleanupPending(pending.dup()),
            Layer::InDoubt(doubt) => Layer::InDoubt(
                DeviceStateInDoubt {
                    device_id: doubt.device_id.clone(),
                    reason: doubt.reason.clone(),
                },
            ),
            Layer::PendingDisk { disk, text } => Layer::PendingDisk {
                disk: disk.dup(),
                text: text.clone(),
            },
            Layer::Shared(text) => Layer::Shared(text.clone()),
        }
    }
}

impl Error {
    /// An error of one plain layer.
    pub fn msg(text: String) -> (r: Error)
        ensures
            r.deep_view() == message(text@),
    {
        Error::of(Layer::Message(text))
    }

    /// An error of one plain layer, from a text that is not owned.
    pub fn msg_str(text: &str) -> (r: Error)
        ensures
            r.deep_view() == message(text@),
    {
        Error::msg(text.to_owned())
    }

    /// An error of one layer.
    pub fn of(layer: Layer) -> (r: Error)
        ensures
            r.deep_view() == seq![layer.deep_view()],
    {
        let mut layers: Vec<Layer> = Vec::new();
        layers.push(layer);
        let r = Error { layers };
        assert(r.deep_view() =~= seq![layer.deep_view()]);
        r
    }

    /// The error of a device of which it is not known whether the hypervisor has it.
    pub fn in_doubt(device_id: String, reason: String) -> (r: Error)
        ensures
            r.deep_view() == seq![
                LayerModel::InDoubt { device_id: device_id@, reason: reason@ },
            ],
    {
        Error::of(Layer::InDoubt(DeviceStateInDoubt { device_id, reason }))
    }

    /// This error below one more layer.
    pub fn below(self, layer: Layer) -> (r: Error)
        ensures
            r.deep_view() == seq![layer.deep_view()] + self.deep_view(),
    {
        let mut layers: Vec<Layer> = self.layers;
        layers.insert(0, layer);
        let r = Error { layers };
        assert(r.deep_view() =~= seq![layer.deep_view()] + self.deep_view());
        r
    }

    /// This error below a layer of plain text.
    pub fn context(self, text: String) -> (r: Error)
        ensures
            r.deep_view() == in_context(self.deep_view(), text@),
    {
        self.below(Layer::Message(text))
    }

    /// This error below a layer of plain text that is not owned.
    pub fn context_str(self, text: &str) -> (r: Error)
        ensures
            r.deep_view() == in_context(self.deep_view(), text@),
    {
        self.context(text.to_owned())
    }

    /// A copy of the error.
    pub fn dup(&self) -> (r: Error)
        ensures
            r.deep_view() == self.deep_view(),
    {
        let mut layers: Vec<Layer> = Vec::new();
        let mut i: usize = 0;
        while i < self.layers.len()
            invariant
                0 <= i <= self.layers@.len(),
                layers.deep_view() == self.layers.deep_view().take(i as int),
            decreases self.layers@.len() - i,
        {
            let ghost before = layers.deep_view();
            let layer = self.layers[i].dup();
            layers.push(layer);
            assert(layers.deep_view() =~= before.push(layer.deep_view()));
            i = i + 1;
        }
        Error { layers }
    }

    /// The text of the outermost layer.
    pub fn text(&self) -> (r: String)
        ensures
            r@ == error_text(self.deep_view()),
    {
        if self.layers.len() == 0 {
            String::new()
        } else {
            self.layers[0].text()
        }
    }

    /// The texts of all layers, outermost first, with `": "` between neighbours.
    pub fn chain_text(&self) -> (r: String)
        ensures
            r@ == error_chain_text(self.deep_view()),
    {
        let mut r: String = String::new();
        let mut i: usize = 0;
        while i < self.layers.len()
            invariant
                0 <= i <= self.layers@.len(),
                r@ == error_chain_text(self.deep_view().take(i as int)),
            decreases self.layers@.len() - i,
        {
            proof {
                let before = self.deep_view().take(i as int);
                let after = self.deep_view().take(i + 1);
                assert(after.drop_last() =~= before);
                assert(after.last() == self.layers@[i as int].deep_view());
            }
            let text = self.layers[i].text();
            if i == 0 {
                r = text;
            } else {
                r.append(": ");
                r.append(text.as_str());
            }
            i = i + 1;
        }
        assert(self.deep_view().take(i as int) =~= self.deep_view());
        r
    }

    /// The cleanup state that the first layer about a pending cleanup holds.
    pub fn cleanup_pending(&self) -> (r: Option<BlockCleanupState>)
        ensures
            r == cleanup_pending_in(self.deep_view()),
    {
        let ghost p = |l: LayerModel| l is CleanupPending;
        let mut i: usize = 0;
        while i < self.layers.len()
            invariant
                0 <= i <= self.layers@.len(),
                p == (|l: LayerModel| l is CleanupPending),
                forall|j: int| 0 <= j < i ==> !p(#[trigger] self.deep_view()[j]),
            decreases self.layers@.len() - i,
        {
            assert(self.deep_view()[i as int] == self.layers@[i as int].deep_view());
            if let Layer::CleanupPending(pending) = &self.layers[i] {
                proof {
                    lemma_first_layer_is(self.deep_view(), p, i as int);
                }
                return Some(pending.state());
            }
            i = i + 1;
        }
        proof {
            lemma_first_layer_is(self.deep_view(), p, i as int);
        }
        None
    }

    /// Whether a layer about a pending cleanup is there.
    pub fn is_cleanup_pending(&self) -> (r: bool)
        ensures
            r == (cleanup_pending_in(self.deep_view()) is Some),
    {
        self.cleanup_pending().is_some()
    }

    /// The device whose state the error says is in doubt.
    pub fn device_state_in_doubt(&self) -> (r: Option<String>)
        ensures
            r.deep_view() == device_in_doubt(self.deep_view()),
            r is Some == names_doubt(self.deep_view()),
    {
        let ghost p = |l: LayerModel| l is InDoubt;
        let mut i: usize = 0;
        while i < self.layers.len()
            invariant
                0 <= i <= self.layers@.len(),
                p == (|l: LayerModel| l is InDoubt),
                forall|j: int| 0 <= j < i ==> !p(#[trigger] self.deep_view()[j]),
            decreases self.layers@.len() - i,
        {
            assert(self.deep_view()[i as int] == self.layers@[i as int].deep_view());
            if let Layer::InDoubt(doubt) = &self.layers[i] {
                proof {
                    lemma_first_layer_is(self.deep_view(), p, i as int);
                }
                return Some(doubt.device_id.clone());
            }
            i = i + 1;
        }
        proof {
            lemma_first_layer_is(self.deep_view(), p, i as int);
        }
        None
    }

    /// The disk whose artifacts the error says are still to be cleaned.
    pub fn pending_disk(&self) -> (r: Option<EphemeralDiskInfo>)
        ensures
            r.deep_view() == pending_disk_in(self.deep_view()),
    {
        let ghost p = |l: LayerModel| l is PendingDisk;
        let mut i: usize = 0;
        while i < self.layers.len()
            invariant
                0 <= i <= self.layers@.len(),
                p == (|l: LayerModel| l is PendingDisk),
                forall|j: int| 0 <= j < i ==> !p(#[trigger] self.deep_view()[j]),
            decreases self.layers@.len() - i,
        {
            assert(self.deep_view()[i as int] == self.layers@[i as int].deep_view());
            if let Layer::PendingDisk { disk, text: _ } = &self.layers[i] {
                proof {
                    lemma_first_layer_is(self.deep_view(), p, i as int);
                }
                return Some(disk.dup());
            }
            i = i + 1;
        }
        proof {
            lemma_first_layer_is(self.deep_view(), p, i as int);
        }
        None
    }

    /// The status of the server response that the error itself is.
    pub fn server_response(&self) -> (r: Option<StatusCode>)
        ensures
            r == server_status(self.deep_view()),
    {
        let ghost p = |l: LayerModel| l is ServerResponse || opens_causes(l);
        let mut i: usize = 0;
        while i < self.layers.len()
            invariant
                0 <= i <= self.layers@.len(),
                p == (|l: LayerModel| l is ServerResponse || opens_causes(l)),
                forall|j: int| 0 <= j < i ==> !p(#[trigger] self.deep_view()[j]),
            decreases self.layers@.len() - i,
        {
            assert(self.deep_view()[i as int] == self.layers@[i as int].deep_view());
            match &self.layers[i] {
                Layer::ServerResponse { status, text: _ } => {
                    proof {
                        lemma_first_layer_is(self.deep_view(), p, i as int);
                    }
                    return Some(*status);
                },
                Layer::NotDispatched { command: _, text: _ } => {
                    proof {
                        lemma_first_layer_is(self.deep_view(), p, i as int);
                    }
                    return None;
                },
                Layer::Shared(_) => {
                    proof {
                        lemma_first_layer_is(self.deep_view(), p, i as int);
                    }
                    return None;
                },
                _ => {},
            }
            i = i + 1;
        }
        proof {
            lemma_first_layer_is(self.deep_view(), p, i as int);
        }
        None
    }

    /// Whether some layer says that the command was not dispatched.
    pub fn is_not_dispatched(&self) -> (r: bool)
        ensures
            r == never_dispatched(self.deep_view()),
    {
        let mut i: usize = 0;
        while i < self.layers.len()
            invariant
                0 <= i <= self.layers@.len(),
                forall|j: int| 0 <= j < i ==> !((#[trigger] self.deep_view()[j]) is NotDispatched),
            decreases self.layers@.len() - i,
        {
            assert(self.deep_view()[i as int] == self.layers@[i as int].deep_view());
            if let Layer::NotDispatched { command: _, text: _ } = &self.layers[i] {
                return true;
            }
            i = i + 1;
        }
        false
    }
}

/// Whether an error says that the command was not dispatched.
pub open spec fn never_dispatched(error: ErrorModel) -> bool {
    exists|i: int| 0 <= i < error.len() && (#[trigger] error[i]) is NotDispatched
}

/// Text around an error hides nothing of it: whatever callers look for in the error is found under
/// any number of layers of context.
pub proof fn law_context_hides_nothing(error: ErrorModel, text: Seq<char>)
    ensures
        names_doubt(in_context(error, text)) == names_doubt(error),
        device_in_doubt(in_context(error, text)) == device_in_doubt(error),
        cleanup_pending_in(in_context(error, text)) == cleanup_pending_in(error),
        pending_disk_in(in_context(error, text)) == pending_disk_in(error),
        server_status(in_context(error, text)) == server_status(error),
        never_dispatched(in_context(error, text)) == never_dispatched(error),
        error_text(in_context(error, text)) == text,
{
    let outer = in_context(error, text);
    assert(outer.drop_first() =~= error);
    assert(outer[0] == LayerModel::Message(text));
    if names_doubt(error) {
        let i = choose|i: int| 0 <= i < error.len() && (#[trigger] error[i]) is InDoubt;
        assert(outer[i + 1] is InDoubt);
    }
    if names_doubt(outer) {
        let i = choose|i: int| 0 <= i < outer.len() && (#[trigger] outer[i]) is InDoubt;
        assert(error[i - 1] is InDoubt);
    }
    if never_dispatched(error) {
        let i = choose|i: int| 0 <= i < error.len() && (#[trigger] error[i]) is NotDispatched;
        assert(outer[i + 1] is NotDispatched);
    }
    if never_dispatched(outer) {
        let i = choose|i: int| 0 <= i < outer.len() && (#[trigger] outer[i]) is NotDispatched;
        assert(error[i - 1] is NotDispatched);
    }
    let doubt = |l: LayerModel| l is InDoubt;
    let pending = |l: LayerModel| l is CleanupPending;
    let disk = |l: LayerModel| l is PendingDisk;
    let answer = |l: LayerModel| l is ServerResponse || opens_causes(l);
    lemma_first_layer(error, doubt);
    lemma_first_layer(error, pending);
    lemma_first_layer(error, disk);
    lemma_first_layer(error, answer);
    assert(first_layer(outer, doubt) == 1 + first_layer(error, doubt));
    assert(first_layer(outer, pending) == 1 + first_layer(error, pending));
    assert(first_layer(outer, disk) == 1 + first_layer(error, disk));
    assert(first_layer(outer, answer) == 1 + first_layer(error, answer));
}

} // verus!
