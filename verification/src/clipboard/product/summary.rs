//! What the application shows of an offer and of its transfer.

use crate::clipboard::data_object;
use crate::clipboard::secure_transfer::manifest;
use crate::clipboard::secure_transfer::manifest::{EntryView, OfferManifest};
use vstd::prelude::*;

verus! {

/// How a transfer stands.
#[derive(Clone, Copy, Debug, PartialEq, Eq, Structural)]
pub enum ProductTransferState {
    AwaitingPaste,
    Running,
    Paused,
    Cancelled,
    Completed,
    Failed,
}

impl ProductTransferState {
    /// The words that are shown.
    pub open spec fn spec_label(self) -> Seq<char> {
        match self {
            ProductTransferState::AwaitingPaste => "等待粘贴"@,
            ProductTransferState::Running => "传输中"@,
            ProductTransferState::Paused => "已暂停"@,
            ProductTransferState::Cancelled => "已取消"@,
            ProductTransferState::Completed => "已完成"@,
            ProductTransferState::Failed => "失败"@,
        }
    }

    /// The words that are shown.
    pub fn label(self) -> (label: &'static str)
        ensures
            label@ == self.spec_label(),
    {
        match self {
            ProductTransferState::AwaitingPaste => "等待粘贴",
            ProductTransferState::Running => "传输中",
            ProductTransferState::Paused => "已暂停",
            ProductTransferState::Cancelled => "已取消",
            ProductTransferState::Completed => "已完成",
            ProductTransferState::Failed => "失败",
        }
    }
}

/// An offer in brief.
#[derive(Debug)]
pub struct ProductManifestSummary {
    pub direction: &'static str,
    pub primary_name: String,
    pub items: usize,
    pub files: usize,
    pub directories: usize,
    pub total_size: u64,
}

/// A transfer in brief.
#[derive(Debug)]
pub struct ProductTransferSnapshot {
    pub state: ProductTransferState,
    pub transferred: u64,
    pub total_size: u64,
    pub bytes_per_second: u64,
    pub average_bytes_per_second: u64,
    pub started_files: usize,
    pub total_files: usize,
    pub current_file_name: Option<String>,
    pub current_file_transferred: u64,
    pub current_file_size: u64,
    pub reconnect_attempts: u64,
    pub recovered_commands: u64,
    pub recovery_active: bool,
}

/// The number of entries that are no directories.
pub open spec fn file_count(entries: Seq<EntryView>) -> nat
    decreases entries.len(),
{
    if entries.len() == 0 {
        0
    } else {
        file_count(entries.drop_last()) + (if data_object::directory_attributes(
            entries.last().descriptor.attributes,
        ) {
            0nat
        } else {
            1nat
        })
    }
}

/// The summed sizes of entries.
pub open spec fn size_sum(entries: Seq<EntryView>) -> nat
    decreases entries.len(),
{
    if entries.len() == 0 {
        0
    } else {
        size_sum(entries.drop_last()) + entries.last().descriptor.size as nat
    }
}

/// The name under which an offer is shown: that of its first entry.
pub open spec fn primary_name(entries: Seq<EntryView>) -> Seq<char> {
    if entries.len() == 0 {
        "（空清单）"@
    } else {
        entries[0].descriptor.name
    }
}

/// The sizes of entries have the sum that the sizes of their descriptors have.
pub proof fn lemma_size_sum_is_total(entries: Seq<EntryView>)
    ensures
        size_sum(entries) == data_object::total_size(manifest::entry_descriptors(entries)),
    decreases entries.len(),
{
    if entries.len() > 0 {
        lemma_size_sum_is_total(entries.drop_last());
        assert(manifest::entry_descriptors(entries).drop_last() =~= manifest::entry_descriptors(
            entries.drop_last(),
        ));
    }
}

/// The sizes of the entries of a virtual tree have a sum that can be told.
pub proof fn lemma_tree_has_size(entries: Seq<EntryView>)
    requires
        data_object::valid_tree(manifest::entry_descriptors(entries)),
    ensures
        size_sum(entries) <= u64::MAX,
{
    lemma_size_sum_is_total(entries);
}

/// Every offer that a receiver accepts can be summarized.
pub proof fn lemma_accepted_offer_has_size(response: Seq<u8>)
    ensures
        manifest::manifest_outcome(response) matches Ok(accepted) ==> size_sum(accepted.entries)
            <= u64::MAX,
{
    if let Ok(accepted) = manifest::manifest_outcome(response) {
        lemma_tree_has_size(accepted.entries);
    }
}

proof fn lemma_prefix_counts(entries: Seq<EntryView>, count: int)
    requires
        0 <= count <= entries.len(),
    ensures
        file_count(entries.take(count)) <= count,
        size_sum(entries.take(count)) <= size_sum(entries),
        file_count(entries) <= entries.len(),
    decreases entries.len() - count, count,
{
    if count < entries.len() {
        lemma_prefix_counts(entries, count + 1);
        assert(entries.take(count + 1).drop_last() =~= entries.take(count));
        lemma_file_count(entries.take(count));
        lemma_file_count(entries);
    } else {
        assert(entries.take(count) =~= entries);
        lemma_file_count(entries);
    }
}

proof fn lemma_file_count(entries: Seq<EntryView>)
    ensures
        file_count(entries) <= entries.len(),
    decreases entries.len(),
{
    if entries.len() > 0 {
        lemma_file_count(entries.drop_last());
    }
}

/// Summarizes an offer.
pub fn summarize_manifest(direction: &'static str, manifest: &OfferManifest) -> (summary:
    ProductManifestSummary)
    requires
        size_sum(manifest@.entries) <= u64::MAX,
    ensures
        summary.direction == direction,
        summary.primary_name@ == primary_name(manifest@.entries),
        summary.items == manifest@.entries.len(),
        summary.files == file_count(manifest@.entries),
        summary.directories == manifest@.entries.len() - file_count(manifest@.entries),
        summary.total_size == size_sum(manifest@.entries),
{
    let ghost views = manifest@.entries;
    assert(views =~= manifest::entry_views(manifest.entries@));
    let mut files: usize = 0;
    let mut total_size: u64 = 0;
    let mut index: usize = 0;
    while index < manifest.entries.len()
        invariant
            index <= manifest.entries@.len(),
            views == manifest::entry_views(manifest.entries@),
            size_sum(views) <= u64::MAX,
            files == file_count(views.take(index as int)),
            files <= index,
            total_size == size_sum(views.take(index as int)),
        decreases manifest.entries@.len() - index,
    {
        proof {
            lemma_prefix_counts(views, index + 1);
            assert(views.take(index + 1).drop_last() =~= views.take(index as int));
            assert(views[index as int] == manifest.entries@[index as int]@);
        }
        if !manifest.entries[index].descriptor.is_directory() {
            files += 1;
        }
        total_size += manifest.entries[index].descriptor.size;
        index += 1;
    }
    assert(views.take(index as int) =~= views);
    let mut primary_name = String::new();
    if manifest.entries.len() == 0 {
        crate::text::push_text(&mut primary_name, "（空清单）");
    } else {
        assert(views[0] == manifest.entries@[0]@);
        crate::text::push_text(&mut primary_name, manifest.entries[0].descriptor.file_name.as_str());
    }
    assert(primary_name@ =~= self::primary_name(views));
    ProductManifestSummary {
        direction,
        primary_name,
        items: manifest.entries.len(),
        files,
        directories: manifest.entries.len() - files,
        total_size,
    }
}

/// The words that people read of a transfer.
pub proof fn lemma_words_of_states(state: ProductTransferState, label: &'static str)
    requires
        call_ensures(ProductTransferState::label, (state,), label),
    ensures
        state is AwaitingPaste ==> label@ == "等待粘贴"@,
        state is Running ==> label@ == "传输中"@,
        state is Paused ==> label@ == "已暂停"@,
        state is Cancelled ==> label@ == "已取消"@,
        state is Completed ==> label@ == "已完成"@,
        state is Failed ==> label@ == "失败"@,
{
}

} // verus!
