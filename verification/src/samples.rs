//! Which entries of a kit's directory are samples.

use vstd::prelude::*;
use vstd::string::*;

verus! {

/// A sample's name ends in `.wav`, in lower case.
pub open spec fn is_sample_name(name: Seq<char>) -> bool {
    name.len() >= 4 && name.subrange(name.len() - 4, name.len() as int) == ".wav"@
}

/// A directory entry, as its name and whether it is a regular file, is a
/// sample where it is a regular file with a sample's name.
pub open spec fn is_sample_entry(entry: (Seq<char>, bool)) -> bool {
    entry.1 && is_sample_name(entry.0)
}

/// The names of the samples of a listing: the entries that are samples, in
/// the order listed, each as often as it is listed, and nothing else.
pub open spec fn sample_names(listing: Seq<(Seq<char>, bool)>) -> Seq<Seq<char>> {
    listing.filter(|entry: (Seq<char>, bool)| is_sample_entry(entry)).map_values(
        |entry: (Seq<char>, bool)| entry.0,
    )
}

/// The names that a vector of file names stands for.
pub open spec fn names_view(names: Seq<String>) -> Seq<Seq<char>> {
    Seq::new(names.len(), |i: int| names[i]@)
}

/// The listing that a vector of directory entries stands for.
pub open spec fn listing_view(listing: Seq<(String, bool)>) -> Seq<(Seq<char>, bool)> {
    Seq::new(listing.len(), |i: int| (listing[i].0@, listing[i].1))
}

/// Taking one more entry of a listing adds its name where it is a sample and
/// nothing where it is not.
pub proof fn lemma_sample_names_step(listing: Seq<(Seq<char>, bool)>, count: int)
    requires
        0 <= count < listing.len(),
    ensures
        sample_names(listing.take(count + 1)) == if is_sample_entry(listing[count]) {
            sample_names(listing.take(count)).push(listing[count].0)
        } else {
            sample_names(listing.take(count))
        },
{
    reveal(Seq::filter);
    let longer = listing.take(count + 1);
    assert(longer.drop_last() =~= listing.take(count));
    assert(longer.last() == listing[count]);
    let kept = listing.take(count).filter(|entry: (Seq<char>, bool)| is_sample_entry(entry));
    if is_sample_entry(listing[count]) {
        assert(kept.push(listing[count]).map_values(|entry: (Seq<char>, bool)| entry.0)
            =~= kept.map_values(|entry: (Seq<char>, bool)| entry.0).push(listing[count].0));
    }
}

/// Every name that comes out is that of a listed sample, and every listed
/// sample's name comes out.
pub proof fn lemma_sample_names_are_the_samples(listing: Seq<(Seq<char>, bool)>)
    ensures
        forall|i: int|
            0 <= i < sample_names(listing).len() ==> exists|j: int|
                0 <= j < listing.len() && is_sample_entry(#[trigger] listing[j]) && listing[j].0
                    == #[trigger] sample_names(listing)[i],
        forall|j: int|
            0 <= j < listing.len() && is_sample_entry(#[trigger] listing[j]) ==> sample_names(
                listing,
            ).contains(listing[j].0),
        sample_names(listing).len() <= listing.len(),
    decreases listing.len(),
{
    if listing.len() == 0 {
        reveal(Seq::filter);
    } else {
        let count = listing.len() - 1;
        let shorter = listing.take(count);
        assert(listing.take(count + 1) =~= listing);
        lemma_sample_names_step(listing, count);
        lemma_sample_names_are_the_samples(shorter);
        let before = sample_names(shorter);
        let now = sample_names(listing);
        assert forall|i: int| 0 <= i < now.len() implies exists|j: int|
            0 <= j < listing.len() && is_sample_entry(#[trigger] listing[j]) && listing[j].0
                == #[trigger] now[i] by {
            if i < before.len() {
                let j = choose|j: int|
                    0 <= j < shorter.len() && is_sample_entry(#[trigger] shorter[j]) && shorter[j].0
                        == before[i];
                assert(listing[j] == shorter[j]);
            } else {
                assert(listing[count].0 == now[i]);
            }
        }
        assert forall|j: int|
            0 <= j < listing.len() && is_sample_entry(#[trigger] listing[j]) implies now.contains(
            listing[j].0,
        ) by {
            if j < count {
                assert(shorter[j] == listing[j]);
                let i = choose|i: int| 0 <= i < before.len() && before[i] == listing[j].0;
                assert(now[i] == listing[j].0);
            } else {
                assert(now[now.len() - 1] == listing[j].0);
            }
        }
    }
}

/// Whether the file name is that of a sample.
pub fn is_audio_file(name: &str) -> (yes: bool)
    ensures
        yes == is_sample_name(name@),
{
    proof {
        reveal_strlit(".wav");
    }
    let length: usize = name.unicode_len();
    if length < 4 {
        return false;
    }
    let yes = name.get_char(length - 4) == '.' && name.get_char(length - 3) == 'w' && name.get_char(
        length - 2,
    ) == 'a' && name.get_char(length - 1) == 'v';
    proof {
        let tail = name@.subrange(length - 4, length as int);
        if yes {
            assert(tail =~= ".wav"@);
        } else {
            assert(tail[0] == name@[length - 4]);
            assert(tail[1] == name@[length - 3]);
            assert(tail[2] == name@[length - 2]);
            assert(tail[3] == name@[length - 1]);
        }
    }
    yes
}

/// The samples among the entries of a directory, each entry given as its name
/// and whether it is a regular file: the names of the regular files that end
/// in `.wav`, in the order listed.
pub fn audio_files_among(listing: &Vec<(String, bool)>) -> (files: Vec<String>)
    ensures
        names_view(files@) == sample_names(listing_view(listing@)),
{
    let mut files: Vec<String> = Vec::new();
    let mut i: usize = 0;
    let ghost entries = listing_view(listing@);
    proof {
        reveal(Seq::filter);
        assert(names_view(files@) =~= sample_names(entries.take(0)));
    }
    while i < listing.len()
        invariant
            i <= listing.len(),
            entries == listing_view(listing@),
            names_view(files@) == sample_names(entries.take(i as int)),
        decreases listing.len() - i,
    {
        let ghost before = names_view(files@);
        proof {
            lemma_sample_names_step(entries, i as int);
        }
        if listing[i].1 && is_audio_file(listing[i].0.as_str()) {
            files.push(listing[i].0.clone());
            proof {
                assert(names_view(files@) =~= before.push(entries[i as int].0));
            }
        }
        i += 1;
    }
    proof {
        assert(entries.take(listing.len() as int) =~= entries);
    }
    files
}

} // verus!
