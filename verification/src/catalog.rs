use crate::format::{format_of, get_format, ImageFormat};
use crate::identity::{file_name, file_name_of, identities, ImageData, ImageIdentity};
use crate::orientation::{get_orientation, orientation_or_default};
use crate::trusted::{key_le, key_views, sorted_keys, text_before};
use vstd::prelude::*;
use vstd::seq_lib::{to_multiset_contains, to_multiset_len};

verus! {

/// What the metadata of a file says of it.
pub struct EntryMetadata {
    /// Whether a preview image is embedded.
    pub embedded_thumbnail: bool,
    /// The EXIF orientation tag, as its number.
    pub orientation: u8,
}

/// One entry of the directory that is scanned.
pub struct ScanEntry {
    pub path: String,
    /// Whether the entry is a regular file.
    pub is_file: bool,
    /// The file's metadata, or none where it could not be read.
    pub metadata: Option<EntryMetadata>,
}

/// Whether the scan keeps an entry: a regular file with a supported
/// extension whose metadata could be read.
pub open spec fn retained(entry: ScanEntry) -> bool {
    format_of(entry.path@, entry.is_file) is Some && entry.metadata is Some
}

/// The identity that the scan gives to an entry it keeps.
pub open spec fn entry_identity(entry: ScanEntry) -> ImageIdentity {
    ImageIdentity {
        path: entry.path@,
        format: format_of(entry.path@, entry.is_file)->Some_0,
        embedded_thumbnail: entry.metadata->Some_0.embedded_thumbnail,
        orientation: orientation_or_default(Some(entry.metadata->Some_0.orientation)),
    }
}

/// Whether the name `a` sorts ahead of the name `b` or equals it.
pub open spec fn name_le(a: Seq<char>, b: Seq<char>) -> bool {
    text_before(a, b) || a == b
}

/// Whether a sort key stands for an entry that the scan keeps: it holds the
/// entry's file name and its position.
pub open spec fn key_valid(entries: Seq<ScanEntry>, key: (Seq<char>, int)) -> bool {
    &&& 0 <= key.1 < entries.len()
    &&& retained(entries[key.1])
    &&& key.0 == file_name_of(entries[key.1].path@)
}

/// The sort key of the entry at position `at`.
pub open spec fn entry_key(entries: Seq<ScanEntry>, at: int) -> (Seq<char>, int) {
    (file_name_of(entries[at].path@), at)
}

/// Two sequences with the same elements, each as often in one as in the
/// other, have the same length and the same members.
proof fn lemma_same_members<A>(a: Seq<A>, b: Seq<A>)
    requires
        a.to_multiset() == b.to_multiset(),
    ensures
        a.len() == b.len(),
        forall|x: A| a.contains(x) <==> b.contains(x),
{
    to_multiset_len(a);
    to_multiset_len(b);
    assert forall|x: A| a.contains(x) <==> b.contains(x) by {
        to_multiset_contains(a, x);
        to_multiset_contains(b, x);
    }
}

/// The keys of the entries that the scan keeps, in the order of the
/// entries.
fn kept_keys(entries: &Vec<ScanEntry>) -> (kept: Vec<(String, usize)>)
    ensures
        kept@.len() == entries@.filter(|e: ScanEntry| retained(e)).len(),
        forall|m: int|
            0 <= m < kept@.len() ==> key_valid(entries@, #[trigger] key_views(kept@)[m]),
        forall|j: int|
            0 <= j < entries@.len() && retained(entries@[j]) ==> key_views(kept@).contains(
                #[trigger] entry_key(entries@, j),
            ),
{
    let ghost keep = |e: ScanEntry| retained(e);
    let mut kept: Vec<(String, usize)> = Vec::new();
    let mut j: usize = 0;
    proof {
        assert(entries@.take(0) =~= Seq::<ScanEntry>::empty());
        Seq::<ScanEntry>::empty().lemma_filter_len(keep);
    }
    while j < entries.len()
        invariant
            j <= entries@.len(),
            keep == (|e: ScanEntry| retained(e)),
            kept@.len() == entries@.take(j as int).filter(keep).len(),
            forall|m: int|
                0 <= m < kept@.len() ==> key_valid(entries@, #[trigger] key_views(kept@)[m]),
            forall|i: int|
                0 <= i < j && retained(entries@[i]) ==> key_views(kept@).contains(
                    #[trigger] entry_key(entries@, i),
                ),
        decreases entries@.len() - j,
    {
        let entry = &entries[j];
        proof {
            assert(entries@.take(j as int + 1) =~= entries@.take(j as int).push(entries@[j as int]));
            entries@.take(j as int).lemma_filter_len_push(keep, entries@[j as int]);
        }
        if get_format(entry.path.as_str(), entry.is_file).is_some() && entry.metadata.is_some() {
            let ghost before = key_views(kept@);
            kept.push((file_name(entry.path.as_str()).to_owned(), j));
            proof {
                let after = key_views(kept@);
                assert(after =~= before.push(entry_key(entries@, j as int)));
                assert forall|i: int| 0 <= i < j + 1 && retained(entries@[i]) implies after.contains(
                    #[trigger] entry_key(entries@, i),
                ) by {
                    if i < j {
                        let m = choose|m: int|
                            0 <= m < before.len() && before[m] == entry_key(entries@, i);
                        assert(after[m] == entry_key(entries@, i));
                    } else {
                        assert(after[before.len() as int] == entry_key(entries@, i));
                    }
                }
            }
        }
        j = j + 1;
    }
    proof {
        assert(entries@.take(j as int) =~= entries@);
    }
    kept
}

/// The images that sorted keys stand for, in the order of the keys.
fn images_of_keys(entries: &Vec<ScanEntry>, sorted: &Vec<(String, usize)>) -> (images: Vec<
    ImageData,
>)
    requires
        forall|t: int|
            0 <= t < sorted@.len() ==> key_valid(entries@, #[trigger] key_views(sorted@)[t]),
    ensures
        images@.len() == sorted@.len(),
        forall|t: int|
            0 <= t < images@.len() ==> (#[trigger] images@[t])@ == entry_identity(
                entries@[key_views(sorted@)[t].1],
            ),
{
    let mut images: Vec<ImageData> = Vec::new();
    let mut i: usize = 0;
    while i < sorted.len()
        invariant
            i <= sorted@.len(),
            images@.len() == i,
            forall|t: int|
                0 <= t < sorted@.len() ==> key_valid(entries@, #[trigger] key_views(sorted@)[t]),
            forall|t: int|
                0 <= t < i ==> (#[trigger] images@[t])@ == entry_identity(
                    entries@[key_views(sorted@)[t].1],
                ),
        decreases sorted@.len() - i,
    {
        let at: usize = sorted[i].1;
        proof {
            assert(key_valid(entries@, key_views(sorted@)[i as int]));
        }
        let entry = &entries[at];
        let format = match get_format(entry.path.as_str(), entry.is_file) {
            Some(format) => format,
            None => ImageFormat::Jpg,
        };
        let (embedded_thumbnail, tag) = match &entry.metadata {
            Some(metadata) => (metadata.embedded_thumbnail, metadata.orientation),
            None => (false, 0u8),
        };
        images.push(
            ImageData {
                path: entry.path.clone(),
                format,
                embedded_thumbnail,
                orientation: get_orientation(Some(tag)),
            },
        );
        i = i + 1;
    }
    images
}

/// Whether `ids` is a catalog of `entries`: it lists kept entries only,
/// lists each of them, and is in ascending order of file name.
pub open spec fn is_catalog(entries: Seq<ScanEntry>, ids: Seq<ImageIdentity>) -> bool {
    &&& forall|i: int|
        0 <= i < ids.len() ==> exists|j: int|
            0 <= j < entries.len() && retained(#[trigger] entries[j]) && #[trigger] ids[i]
                == entry_identity(entries[j])
    &&& forall|j: int|
        0 <= j < entries.len() && retained(#[trigger] entries[j]) ==> ids.contains(
            entry_identity(entries[j]),
        )
    &&& forall|i: int, k: int|
        0 <= i <= k < ids.len() ==> name_le(
            file_name_of((#[trigger] ids[i]).path),
            file_name_of((#[trigger] ids[k]).path),
        )
}

/// Images listed by keys that are the kept keys in ascending order make a
/// catalog.
proof fn lemma_sorted_keys_make_catalog(
    entries: Seq<ScanEntry>,
    kept: Seq<(Seq<char>, int)>,
    keys: Seq<(Seq<char>, int)>,
    ids: Seq<ImageIdentity>,
)
    requires
        forall|m: int| 0 <= m < kept.len() ==> key_valid(entries, #[trigger] kept[m]),
        forall|j: int|
            0 <= j < entries.len() && retained(entries[j]) ==> kept.contains(
                #[trigger] entry_key(entries, j),
            ),
        keys.to_multiset() == kept.to_multiset(),
        forall|i: int, k: int| 0 <= i <= k < keys.len() ==> key_le(keys[i], keys[k]),
        ids.len() == keys.len(),
        forall|t: int| 0 <= t < ids.len() ==> #[trigger] ids[t] == entry_identity(entries[keys[t].1]),
    ensures
        ids.len() == kept.len(),
        is_catalog(entries, ids),
{
    lemma_same_members(keys, kept);
    assert forall|t: int| 0 <= t < keys.len() implies key_valid(entries, #[trigger] keys[t]) by {
        assert(keys.contains(keys[t]));
        let m = choose|m: int| 0 <= m < kept.len() && kept[m] == keys[t];
        assert(key_valid(entries, kept[m]));
    }
    assert forall|i: int| 0 <= i < ids.len() implies exists|j: int|
        0 <= j < entries.len() && retained(#[trigger] entries[j]) && #[trigger] ids[i]
            == entry_identity(entries[j]) by {
        assert(key_valid(entries, keys[i]));
        assert(retained(entries[keys[i].1]));
    }
    assert forall|j: int| 0 <= j < entries.len() && retained(#[trigger] entries[j]) implies ids.contains(
        entry_identity(entries[j]),
    ) by {
        assert(kept.contains(entry_key(entries, j)));
        assert(keys.contains(entry_key(entries, j)));
        let i = choose|i: int| 0 <= i < keys.len() && keys[i] == entry_key(entries, j);
        assert(ids[i] == entry_identity(entries[j]));
    }
    assert forall|i: int, k: int| 0 <= i <= k < ids.len() implies name_le(
        file_name_of((#[trigger] ids[i]).path),
        file_name_of((#[trigger] ids[k]).path),
    ) by {
        assert(key_le(keys[i], keys[k]));
        assert(key_valid(entries, keys[i]));
        assert(key_valid(entries, keys[k]));
    }
}

/// Builds the catalog from the entries of a directory.
///
/// Entries that are no regular files, or whose extension names no supported
/// format, are dropped without notice; so are files whose metadata could not
/// be read. The rest is listed in ascending order of file name, each with
/// the format of its extension, the orientation of its tag (none or an
/// unknown one leaves the image as it is), and whether a preview is
/// embedded. There are as many images as there are entries that are kept.
pub fn load_available_images(entries: &Vec<ScanEntry>) -> (images: Vec<ImageData>)
    ensures
        images@.len() == entries@.filter(|e: ScanEntry| retained(e)).len(),
        is_catalog(entries@, identities(images@)),
{
    let kept = kept_keys(entries);
    let ghost kept_views = key_views(kept@);
    let sorted = sorted_keys(kept);
    proof {
        let keys = key_views(sorted@);
        lemma_same_members(keys, kept_views);
        assert forall|t: int| 0 <= t < keys.len() implies key_valid(
            entries@,
            #[trigger] keys[t],
        ) by {
            assert(keys.contains(keys[t]));
            let m = choose|m: int| 0 <= m < kept_views.len() && kept_views[m] == keys[t];
            assert(key_valid(entries@, kept_views[m]));
        }
    }
    let images = images_of_keys(entries, &sorted);
    proof {
        let keys = key_views(sorted@);
        let ids = identities(images@);
        assert forall|t: int| 0 <= t < ids.len() implies #[trigger] ids[t] == entry_identity(
            entries@[keys[t].1],
        ) by {
            assert(ids[t] == images@[t]@);
        }
        lemma_sorted_keys_make_catalog(entries@, kept_views, keys, ids);
    }
    images
}

} // verus!
