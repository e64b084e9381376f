//! Aggregate statistics over classified files: how many files of each
//! asset kind were seen and how many bytes they hold.

use vstd::prelude::*;

use crate::asset::{asset_eq, Asset, AssetView};
use crate::texture::{BakeType, TextureData, TextureType};

verus! {

/// The running totals: overall size and file count, and per asset kind
/// the number of files and their accumulated size.
#[derive(Default, Clone, Debug)]
pub struct Stats {
    pub total_size: u64,
    pub total_files: usize,
    pub file_types: Vec<(Asset, (u32, u64))>,
}

/// The tallies as mathematical values: asset views with unbounded counts.
pub open spec fn tally_views(s: Seq<(Asset, (u32, u64))>) -> Seq<(AssetView, (int, int))> {
    Seq::new(s.len(), |i: int| (s[i].0@, (s[i].1.0 as int, s[i].1.1 as int)))
}

/// The first index carrying the key, or -1 when no entry does.
pub open spec fn spec_find_key(s: Seq<(AssetView, (int, int))>, k: AssetView) -> int
    decreases s.len(),
{
    if s.len() == 0 {
        -1
    } else if s[0].0 == k {
        0
    } else {
        let r = spec_find_key(s.drop_first(), k);
        if r == -1 {
            -1
        } else {
            r + 1
        }
    }
}

/// `spec_find_key` names the first entry carrying the key.
pub proof fn lemma_find_key(s: Seq<(AssetView, (int, int))>, k: AssetView)
    ensures
        -1 <= spec_find_key(s, k) < s.len(),
        spec_find_key(s, k) >= 0 ==> s[spec_find_key(s, k)].0 == k,
        forall|j: int|
            0 <= j < s.len() && s[j].0 == k ==> spec_find_key(s, k) >= 0 && spec_find_key(s, k)
                <= j,
    decreases s.len(),
{
    if s.len() == 0 {
    } else if s[0].0 == k {
    } else {
        lemma_find_key(s.drop_first(), k);
        assert forall|j: int| 0 <= j < s.len() && s[j].0 == k implies spec_find_key(s, k) >= 0
            && spec_find_key(s, k) <= j by {
            assert(s.drop_first()[j - 1] == s[j]);
        }
    }
}

/// Count one file of the given kind and size: the entry carrying the key
/// grows by one file and the size; a key without an entry gets a new one.
pub open spec fn spec_bump(s: Seq<(AssetView, (int, int))>, k: AssetView, size: int) -> Seq<
    (AssetView, (int, int)),
> {
    let i = spec_find_key(s, k);
    if i < 0 {
        s.push((k, (1, size)))
    } else {
        s.update(i, (k, (s[i].1.0 + 1, s[i].1.1 + size)))
    }
}

/// The key `insert` counts a texture under: bakes are folded to normal
/// bakes, specials stay special, everything else counts as base color,
/// and the texture's own name and extension are dropped. Other assets
/// count as themselves.
pub open spec fn spec_insert_key(a: AssetView) -> AssetView {
    match a {
        AssetView::Texture(t, _name, _ext) => AssetView::Texture(
            match t {
                TextureType::Bake(_) => TextureType::Bake(BakeType::Normal),
                TextureType::Special => TextureType::Special,
                _ => TextureType::BaseColor,
            },
            Seq::empty(),
            Seq::empty(),
        ),
        x => x,
    }
}

/// A list of classified files as mathematical values.
pub open spec fn files_view(s: Seq<(Option<Asset>, u64)>) -> Seq<(Option<AssetView>, int)> {
    Seq::new(
        s.len(),
        |i: int|
            (
                match s[i].0 {
                    Some(a) => Some(a@),
                    None => None,
                },
                s[i].1 as int,
            ),
    )
}

/// Every tally reset to zero files and zero bytes, the keys kept.
pub open spec fn spec_reset(s: Seq<(AssetView, (int, int))>) -> Seq<(AssetView, (int, int))> {
    Seq::new(s.len(), |i: int| (s[i].0, (0 as int, 0 as int)))
}

/// The tallies after counting every classified file, in order; files
/// without a classification are passed over.
pub open spec fn spec_tally(
    s: Seq<(AssetView, (int, int))>,
    files: Seq<(Option<AssetView>, int)>,
) -> Seq<(AssetView, (int, int))>
    decreases files.len(),
{
    if files.len() == 0 {
        s
    } else {
        let prev = spec_tally(s, files.drop_last());
        match files.last().0 {
            None => prev,
            Some(k) => spec_bump(prev, k, files.last().1),
        }
    }
}

/// The accumulated size of the classified files.
pub open spec fn spec_size_sum(files: Seq<(Option<AssetView>, int)>) -> int
    decreases files.len(),
{
    if files.len() == 0 {
        0
    } else {
        spec_size_sum(files.drop_last()) + (match files.last().0 {
            None => 0,
            Some(_) => files.last().1,
        })
    }
}

/// How many of the files carry no classification.
pub open spec fn spec_count_ignored(files: Seq<(Option<AssetView>, int)>) -> int
    decreases files.len(),
{
    if files.len() == 0 {
        0
    } else {
        spec_count_ignored(files.drop_last()) + (match files.last().0 {
            None => 1 as int,
            Some(_) => 0 as int,
        })
    }
}

/// The count of unclassified files lies between zero and the number of
/// files.
pub proof fn lemma_count_ignored_bounds(files: Seq<(Option<AssetView>, int)>)
    ensures
        0 <= spec_count_ignored(files) <= files.len(),
    decreases files.len(),
{
    if files.len() > 0 {
        lemma_count_ignored_bounds(files.drop_last());
    }
}

/// With no negative sizes, the size of a prefix never exceeds the size
/// of the whole.
pub proof fn lemma_size_sum_monotone(files: Seq<(Option<AssetView>, int)>, k: int)
    requires
        0 <= k <= files.len(),
        forall|j: int| 0 <= j < files.len() ==> (#[trigger] files[j]).1 >= 0,
    ensures
        spec_size_sum(files.take(k)) <= spec_size_sum(files),
        spec_size_sum(files.take(k)) >= 0,
    decreases files.len() - k,
{
    if k == files.len() {
        assert(files.take(k) =~= files);
        lemma_size_sum_nonneg(files);
    } else {
        lemma_size_sum_monotone(files, k + 1);
        assert(files.take(k + 1).drop_last() =~= files.take(k));
        assert(files.take(k + 1).last() == files[k]);
        lemma_size_sum_nonneg(files.take(k));
    }
}

/// With no negative sizes, no accumulated size is negative.
pub proof fn lemma_size_sum_nonneg(files: Seq<(Option<AssetView>, int)>)
    requires
        forall|j: int| 0 <= j < files.len() ==> (#[trigger] files[j]).1 >= 0,
    ensures
        spec_size_sum(files) >= 0,
    decreases files.len(),
{
    if files.len() > 0 {
        lemma_size_sum_nonneg(files.drop_last());
        assert(forall|j: int|
            0 <= j < files.len() - 1 ==> (#[trigger] files.drop_last()[j]) == files[j]);
    }
}

/// Counting more files never shrinks a tally: every entry of the tallies
/// over a prefix stands in the tallies over the whole, under the same
/// key, with counts and sizes at most those of the whole.
pub proof fn lemma_tally_monotone(
    s: Seq<(AssetView, (int, int))>,
    files: Seq<(Option<AssetView>, int)>,
    k: int,
)
    requires
        0 <= k <= files.len(),
        forall|j: int| 0 <= j < files.len() ==> (#[trigger] files[j]).1 >= 0,
    ensures
        spec_tally(s, files.take(k)).len() <= spec_tally(s, files).len(),
        forall|j: int|
            0 <= j < spec_tally(s, files.take(k)).len() ==> {
                let a = #[trigger] spec_tally(s, files.take(k))[j];
                let b = spec_tally(s, files)[j];
                b.0 == a.0 && a.1.0 <= b.1.0 && a.1.1 <= b.1.1
            },
    decreases files.len() - k,
{
    if k == files.len() {
        assert(files.take(k) =~= files);
    } else {
        lemma_tally_monotone(s, files, k + 1);
        let a = spec_tally(s, files.take(k));
        let m = spec_tally(s, files.take(k + 1));
        let b = spec_tally(s, files);
        assert(files.take(k + 1).drop_last() =~= files.take(k));
        assert(files.take(k + 1).last() == files[k]);
        assert(files[k].1 >= 0);
        match files[k].0 {
            None => {
                assert(m == a);
            },
            Some(key) => {
                lemma_find_key(a, key);
                let i = spec_find_key(a, key);
                if i < 0 {
                    assert(m == a.push((key, (1, files[k].1))));
                } else {
                    assert(m == a.update(i, (key, (a[i].1.0 + 1, a[i].1.1 + files[k].1))));
                }
            },
        }
        assert(a.len() <= m.len());
        assert forall|j: int| 0 <= j < a.len() implies {
            let aj = #[trigger] a[j];
            let bj = b[j];
            bj.0 == aj.0 && aj.1.0 <= bj.1.0 && aj.1.1 <= bj.1.1
        } by {
            assert(m[j].0 == a[j].0 && a[j].1.0 <= m[j].1.0 && a[j].1.1 <= m[j].1.1);
            assert(b[j].0 == m[j].0 && m[j].1.0 <= b[j].1.0 && m[j].1.1 <= b[j].1.1);
        }
    }
}

impl Stats {
    /// The tallies as mathematical values.
    pub open spec fn tallies(&self) -> Seq<(AssetView, (int, int))> {
        tally_views(self.file_types@)
    }

    /// Count one classified file of the given size.
    ///
    /// A texture is counted under its folded kind — its name, extension
    /// and concrete bake are dropped first — so all textures of a kind
    /// share one tally. The bounds asked of the caller are the machine
    /// limits of the counters.
    pub fn insert(&mut self, a: Asset, a_size: u64)
        requires
            old(self).total_size + a_size <= u64::MAX,
            ({
                let i = spec_find_key(old(self).tallies(), spec_insert_key(a@));
                i >= 0 ==> old(self).tallies()[i].1.0 + 1 <= u32::MAX && old(self).tallies()[i].1.1
                    + a_size <= u64::MAX
            }),
        ensures
            final(self).total_files == old(self).total_files,
            final(self).total_size == old(self).total_size + a_size,
            final(self).tallies() == spec_bump(
                old(self).tallies(),
                spec_insert_key(a@),
                a_size as int,
            ),
    {
        let ghost aview = a@;
        let key: Asset = match a {
            Asset::Texture(td) => {
                let new_type = match td.tex_type {
                    TextureType::Bake(_) => TextureType::Bake(BakeType::Normal),
                    TextureType::Special => TextureType::Special,
                    _ => TextureType::BaseColor,
                };
                Asset::Texture(
                    TextureData { tex_type: new_type, name: String::new(), extension: String::new() },
                )
            },
            other => other,
        };
        proof {
            assert(key@ == spec_insert_key(aview));
        }
        self.bump(key, a_size);
        self.total_size = self.total_size + a_size;
    }

    /// Count one file under exactly this key.
    #[verifier::loop_isolation(false)]
    fn bump(&mut self, key: Asset, size: u64)
        requires
            ({
                let i = spec_find_key(old(self).tallies(), key@);
                i >= 0 ==> old(self).tallies()[i].1.0 + 1 <= u32::MAX && old(self).tallies()[i].1.1
                    + size <= u64::MAX
            }),
        ensures
            final(self).tallies() == spec_bump(old(self).tallies(), key@, size as int),
            final(self).total_size == old(self).total_size,
            final(self).total_files == old(self).total_files,
    {
        let ghost t0 = self.tallies();
        proof {
            lemma_find_key(t0, key@);
        }
        let n = self.file_types.len();
        let mut i: usize = 0;
        let mut found = false;
        while !found && i < n
            invariant
                i <= n,
                self == old(self),
                forall|j: int| 0 <= j < i ==> t0[j].0 != key@,
                found ==> i < n && t0[i as int].0 == key@,
            decreases n - i, (if found { 0 as int } else { 1 as int }),
        {
            if asset_eq(&self.file_types[i].0, &key) {
                found = true;
            } else {
                i = i + 1;
            }
        }
        if found {
            proof {
                assert(spec_find_key(t0, key@) == i as int);
            }
            let q = self.file_types[i].1.0;
            let s = self.file_types[i].1.1;
            self.file_types[i].1 = (q + 1, s + size);
            proof {
                assert(self.tallies() =~= spec_bump(t0, key@, size as int));
            }
        } else {
            proof {
                assert(spec_find_key(t0, key@) == -1);
            }
            self.file_types.push((key, (1, size)));
            proof {
                assert(self.tallies() =~= spec_bump(t0, key@, size as int));
            }
        }
    }

    /// Recount everything from one pass over the classified files.
    ///
    /// The existing tallies keep their keys but are reset to zero, then
    /// every classified file is counted under its own key — unlike
    /// [`Stats::insert`], without folding — and files without a
    /// classification are passed over. The overall size and file count
    /// are rebuilt from the same pass. The bounds asked of the caller are
    /// the machine limits of the counters on the final totals; every
    /// intermediate total lies below them.
    #[verifier::loop_isolation(false)]
    pub fn update(&mut self, files: &Vec<(Option<Asset>, u64)>)
        requires
            spec_size_sum(files_view(files@)) <= u64::MAX,
            forall|j: int|
                0 <= j < spec_tally(
                    spec_reset(old(self).tallies()),
                    files_view(files@),
                ).len() ==> {
                    let e = #[trigger] spec_tally(
                        spec_reset(old(self).tallies()),
                        files_view(files@),
                    )[j];
                    e.1.0 <= u32::MAX && e.1.1 <= u64::MAX
                },
        ensures
            final(self).tallies() == spec_tally(
                spec_reset(old(self).tallies()),
                files_view(files@),
            ),
            final(self).total_size == spec_size_sum(files_view(files@)),
            final(self).total_files == files@.len() - spec_count_ignored(files_view(files@)),
    {
        let ghost t0 = self.tallies();
        let ghost reset0 = spec_reset(t0);
        let ghost fv = files_view(files@);

        // reset the kept keys
        let n = self.file_types.len();
        let mut i: usize = 0;
        while i < n
            invariant
                i <= n,
                self.file_types@.len() == n,
                self.total_size == old(self).total_size,
                self.total_files == old(self).total_files,
                forall|j: int| 0 <= j < i ==> (#[trigger] self.file_types@[j]).1 == (0u32, 0u64),
                forall|j: int|
                    i <= j < n ==> self.file_types@[j] == #[trigger] old(self).file_types@[j],
                forall|j: int|
                    0 <= j < n ==> (#[trigger] self.file_types@[j]).0 == old(
                        self,
                    ).file_types@[j].0,
            decreases n - i,
        {
            let ghost before = self.file_types@;
            self.file_types[i].1 = (0, 0);
            proof {
                assert(self.file_types@[i as int].0 == before[i as int].0);
                assert(self.file_types@[i as int].1 == (0u32, 0u64));
                assert(forall|j: int|
                    0 <= j < n && j != i ==> self.file_types@[j] == #[trigger] before[j]);
            }
            i = i + 1;
        }
        proof {
            assert forall|j: int| 0 <= j < n implies self.tallies()[j] == reset0[j] by {
                assert((#[trigger] self.file_types@[j]).1 == (0u32, 0u64));
                assert(self.file_types@[j].0 == old(self).file_types@[j].0);
            }
            assert(self.tallies() =~= reset0);
        }
        self.total_size = 0;

        // one pass over the files
        let m = files.len();
        let mut k: usize = 0;
        let mut ignored: usize = 0;
        proof {
            assert(fv.take(0) =~= Seq::<(Option<AssetView>, int)>::empty());
        }
        while k < m
            invariant
                k <= m,
                m == files@.len(),
                ignored <= k,
                self.tallies() == spec_tally(reset0, fv.take(k as int)),
                self.total_size == spec_size_sum(fv.take(k as int)),
                ignored == spec_count_ignored(fv.take(k as int)),
                self.total_files == old(self).total_files,
            decreases m - k,
        {
            let ghost prefix = fv.take(k as int);
            proof {
                assert(fv.take(k as int + 1).drop_last() =~= prefix);
                assert(fv.take(k as int + 1).last() == fv[k as int]);
                assert(forall|j: int| 0 <= j < fv.len() ==> (#[trigger] fv[j]).1 >= 0);
            }
            let size = files[k].1;
            match &files[k].0 {
                None => {
                    ignored = ignored + 1;
                },
                Some(a) => {
                    proof {
                        lemma_tally_monotone(reset0, fv, k as int + 1);
                        lemma_find_key(self.tallies(), a@);
                        lemma_size_sum_monotone(fv, k as int + 1);
                        let fi = spec_find_key(self.tallies(), a@);
                        let m2 = spec_tally(reset0, fv.take(k as int + 1));
                        assert(fv[k as int].1 == size as int);
                        assert(m2 == spec_bump(self.tallies(), a@, size as int));
                        if fi >= 0 {
                            assert(m2[fi] == (
                                a@,
                                (
                                    self.tallies()[fi].1.0 + 1,
                                    self.tallies()[fi].1.1 + size as int,
                                ),
                            ));
                            assert(m2[fi].1.0 <= u32::MAX && m2[fi].1.1 <= u64::MAX);
                        }
                        assert(spec_size_sum(fv.take(k as int + 1)) == spec_size_sum(prefix)
                            + size as int);
                    }
                    let akey = a.clone_asset();
                    self.bump(akey, size);
                    self.total_size = self.total_size + size;
                },
            }
            k = k + 1;
        }
        proof {
            assert(fv.take(m as int) =~= fv);
            lemma_count_ignored_bounds(fv);
        }
        self.total_files = files.len() - ignored;
    }
}

} // verus!
