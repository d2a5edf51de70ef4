//! What holds of errors, their texts and what callers look for in them.
use crate::error::{
    cleanup_pending_in, device_in_doubt, error_chain_text, error_text, in_context, layer_text,
    lemma_first_layer, message, names_doubt, pending_disk_in, ErrorModel, LayerModel,
};
use vstd::prelude::*;

verus! {

/// The text of a chain begins with the text around the error and goes on with the chain of the
/// error; that of one layer is its own text.
pub proof fn law_chain_text_names_every_layer(error: ErrorModel, text: Seq<char>)
    ensures
        error.len() > 0 ==> error_chain_text(in_context(error, text)) == text + ": "@
            + error_chain_text(error),
        error.len() == 0 ==> error_chain_text(in_context(error, text)) == text,
        error_chain_text(message(text)) == text,
        error_text(message(text)) == text,
    decreases error.len(),
{
    let outer = in_context(error, text);
    if error.len() > 0 {
        assert(outer.drop_last() =~= in_context(error.drop_last(), text));
        assert(outer.last() == error.last());
        law_chain_text_names_every_layer(error.drop_last(), text);
        if error.len() > 1 {
            assert(error_chain_text(outer) =~= text + ": "@ + error_chain_text(error));
        }
    } else {
        assert(outer =~= message(text));
    }
}

/// A device in doubt is named with the reason, and a cleanup that did not finish with the details.
pub proof fn law_layers_say_what_they_are_about(
    device_id: Seq<char>,
    reason: Seq<char>,
    state: crate::block_device::BlockCleanupState,
)
    ensures
        layer_text(LayerModel::InDoubt { device_id, reason }) == "device "@ + device_id
            + " state is in doubt: "@ + reason,
        layer_text(
            LayerModel::CleanupPending { node_name: device_id, details: reason, state },
        ) == "QEMU block device "@ + device_id + " cleanup remains incomplete: "@ + reason,
        layer_text(LayerModel::Message(reason)) == reason,
        layer_text(LayerModel::Shared(reason)) == reason,
{
}

/// What is looked for in an error is what its first layer of that kind holds, and is missing exactly
/// where there is no such layer.
pub proof fn law_first_layer_of_a_kind_counts(error: ErrorModel)
    ensures
        match cleanup_pending_in(error) {
            Some(state) => exists|i: int|
                0 <= i < error.len() && (#[trigger] error[i] matches LayerModel::CleanupPending {
                    state: own,
                    ..
                } && own == state) && forall|j: int|
                    0 <= j < i ==> !((#[trigger] error[j]) is CleanupPending),
            None => forall|i: int|
                0 <= i < error.len() ==> !((#[trigger] error[i]) is CleanupPending),
        },
        match device_in_doubt(error) {
            Some(device) => names_doubt(error) && exists|i: int|
                0 <= i < error.len() && (#[trigger] error[i] matches LayerModel::InDoubt {
                    device_id,
                    ..
                } && device_id == device) && forall|j: int|
                    0 <= j < i ==> !((#[trigger] error[j]) is InDoubt),
            None => !names_doubt(error),
        },
        match pending_disk_in(error) {
            Some(disk) => exists|i: int|
                0 <= i < error.len() && (#[trigger] error[i] matches LayerModel::PendingDisk {
                    disk: own,
                    ..
                } && own == disk) && forall|j: int|
                    0 <= j < i ==> !((#[trigger] error[j]) is PendingDisk),
            None => forall|i: int| 0 <= i < error.len() ==> !((#[trigger] error[i]) is PendingDisk),
        },
{
    let pending = |l: LayerModel| l is CleanupPending;
    let doubt = |l: LayerModel| l is InDoubt;
    let disk = |l: LayerModel| l is PendingDisk;
    lemma_first_layer(error, pending);
    lemma_first_layer(error, doubt);
    lemma_first_layer(error, disk);
    let p = crate::error::first_layer(error, pending);
    let d = crate::error::first_layer(error, doubt);
    let k = crate::error::first_layer(error, disk);
    assert forall|j: int| 0 <= j < p implies !((#[trigger] error[j]) is CleanupPending) by {
        assert(!pending(error[j]));
    }
    assert forall|j: int| 0 <= j < d implies !((#[trigger] error[j]) is InDoubt) by {
        assert(!doubt(error[j]));
    }
    assert forall|j: int| 0 <= j < k implies !((#[trigger] error[j]) is PendingDisk) by {
        assert(!disk(error[j]));
    }
    if p < error.len() {
        assert(error[p] is CleanupPending);
    }
    if d < error.len() {
        assert(error[d] is InDoubt);
    }
    if k < error.len() {
        assert(error[k] is PendingDisk);
    }
}

} // verus!
