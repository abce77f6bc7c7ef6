use vstd::prelude::*;

use crate::error::{BlogError, LoadError};
use crate::post::{
    key_le, lemma_key_le_total, lemma_key_le_trans, make_post, post_le, post_of, Post, PostModel,
};

verus! {

broadcast use vstd::seq_lib::to_multiset_insert, vstd::seq_lib::to_multiset_build;

/// The models of a list of posts.
pub open spec fn models_of(posts: Seq<Post>) -> Seq<PostModel> {
    posts.map_values(|p: Post| p@)
}

/// The collection is totally ordered: ascending by year, month and day,
/// oldest first, ties broken by filename.
pub open spec fn sorted(s: Seq<PostModel>) -> bool {
    forall|i: int, j: int| 0 <= i < j < s.len() ==> key_le(#[trigger] s[i], #[trigger] s[j])
}

/// Where a new post goes in an ordered collection: after every leading
/// entry that ties with or precedes it, so equal keys keep arrival order.
pub open spec fn insert_pos(p: PostModel, s: Seq<PostModel>) -> int
    decreases s.len(),
{
    if s.len() == 0 {
        0
    } else if !key_le(s[0], p) {
        0
    } else {
        1 + insert_pos(p, s.skip(1))
    }
}

/// An ordered collection with `p` inserted at its position.
pub open spec fn insert_sorted(p: PostModel, s: Seq<PostModel>) -> Seq<PostModel> {
    s.insert(insert_pos(p, s), p)
}

/// The ordered version of `s`: every entry inserted in turn, so the result
/// is a function of the input sequence alone.
pub open spec fn sort_spec(s: Seq<PostModel>) -> Seq<PostModel>
    decreases s.len(),
{
    if s.len() == 0 {
        Seq::empty()
    } else {
        insert_sorted(s.last(), sort_spec(s.drop_last()))
    }
}

pub proof fn lemma_insert_pos_bounds(p: PostModel, s: Seq<PostModel>)
    ensures
        0 <= insert_pos(p, s) <= s.len(),
        forall|j: int| 0 <= j < insert_pos(p, s) ==> key_le(#[trigger] s[j], p),
        insert_pos(p, s) < s.len() ==> !key_le(s[insert_pos(p, s)], p),
    decreases s.len(),
{
    if s.len() > 0 && key_le(s[0], p) {
        lemma_insert_pos_bounds(p, s.skip(1));
        assert forall|j: int| 0 <= j < insert_pos(p, s) implies key_le(#[trigger] s[j], p) by {
            if j > 0 {
                assert(s[j] == s.skip(1)[j - 1]);
            }
        }
        if insert_pos(p, s) < s.len() {
            assert(s[insert_pos(p, s)] == s.skip(1)[insert_pos(p, s.skip(1))]);
        }
    }
}

/// A position after every entry that ties with or precedes `p`, and before
/// the first entry that does not, is the insertion position.
pub proof fn lemma_insert_pos_unique(p: PostModel, s: Seq<PostModel>, k: int)
    requires
        0 <= k <= s.len(),
        forall|j: int| 0 <= j < k ==> key_le(#[trigger] s[j], p),
        k < s.len() ==> !key_le(s[k], p),
    ensures
        insert_pos(p, s) == k,
    decreases s.len(),
{
    if k == 0 {
    } else {
        assert(key_le(s[0], p));
        assert forall|j: int| 0 <= j < k - 1 implies key_le(#[trigger] s.skip(1)[j], p) by {
            assert(s.skip(1)[j] == s[j + 1]);
        }
        if k - 1 < s.skip(1).len() {
            assert(s.skip(1)[k - 1] == s[k]);
        }
        lemma_insert_pos_unique(p, s.skip(1), k - 1);
    }
}

/// Inserting into an ordered collection keeps it ordered, makes it one
/// longer, and adds exactly the new entry.
pub proof fn lemma_insert_sorted(p: PostModel, s: Seq<PostModel>)
    requires
        sorted(s),
    ensures
        sorted(insert_sorted(p, s)),
        insert_sorted(p, s).len() == s.len() + 1,
        insert_sorted(p, s).to_multiset() == s.to_multiset().insert(p),
{
    lemma_insert_pos_bounds(p, s);
    let k = insert_pos(p, s);
    let t = s.insert(k, p);
    s.insert_ensures(k, p);
    if k < s.len() {
        lemma_key_le_total(s[k], p);
    }
    assert forall|i: int, j: int| 0 <= i < j < t.len() implies key_le(t[i], t[j]) by {
        if j < k {
        } else if j == k {
            assert(t[i] == s[i]);
        } else if i < k {
            assert(t[i] == s[i]);
            assert(t[j] == s[j - 1]);
        } else if i == k {
            assert(t[j] == s[j - 1]);
            if j - 1 > k {
                lemma_key_le_trans(p, s[k], s[j - 1]);
            }
        } else {
            assert(t[i] == s[i - 1]);
            assert(t[j] == s[j - 1]);
        }
    }
    assert(t.to_multiset() == s.to_multiset().insert(p));
}

/// Law: ordering a collection keeps exactly its entries — same length, same
/// multiset — and leaves it totally ordered, oldest first.
pub proof fn lemma_sort_spec_ensures(s: Seq<PostModel>)
    ensures
        sorted(sort_spec(s)),
        sort_spec(s).len() == s.len(),
        sort_spec(s).to_multiset() == s.to_multiset(),
    decreases s.len(),
{
    if s.len() == 0 {
        assert(s =~= Seq::<PostModel>::empty());
        assert(sort_spec(s) == Seq::<PostModel>::empty());
    } else {
        lemma_sort_spec_ensures(s.drop_last());
        lemma_insert_sorted(s.last(), sort_spec(s.drop_last()));
        assert(s.drop_last().push(s.last()) =~= s);
        assert(s.drop_last().push(s.last()).to_multiset() == s.drop_last().to_multiset().insert(
            s.last(),
        ));
    }
}

/// Insert one post into an ordered list, at the position `insert_sorted`
/// gives it.
fn insert_post(out: &mut Vec<Post>, p: Post)
    ensures
        models_of(final(out)@) == insert_sorted(p@, models_of(old(out)@)),
{
    let ghost s = models_of(old(out)@);
    let n: usize = out.len();
    let mut k: usize = 0;
    while k < n && post_le(&out[k], &p)
        invariant
            k <= n,
            n == out@.len(),
            s.len() == n,
            *out == *old(out),
            s == models_of(out@),
            forall|j: int| 0 <= j < k ==> key_le(#[trigger] s[j], p@),
        decreases n - k,
    {
        proof {
            assert(models_of(out@)[k as int] == out@[k as int]@);
        }
        k += 1;
    }
    proof {
        lemma_insert_pos_unique(p@, s, k as int);
    }
    out.insert(k, p);
    proof {
        let t = old(out)@.insert(k as int, p);
        old(out)@.insert_ensures(k as int, p);
        s.insert_ensures(k as int, p@);
        assert forall|i: int| 0 <= i < t.len() implies models_of(t)[i] == s.insert(
            k as int,
            p@,
        )[i] by {
            if i < k {
            } else if i == k {
            } else {
                assert(t[i] == old(out)@[i - 1]);
                assert(s.insert(k as int, p@)[i] == s[i - 1]);
            }
        }
        assert(models_of(t) =~= s.insert(k as int, p@));
    }
}

/// Order a list of posts, as `sort_spec` describes: ascending by year,
/// month and day, oldest first, ties broken by filename, equal keys kept in
/// arrival order.
pub fn sort_posts(posts: Vec<Post>) -> (r: Vec<Post>)
    ensures
        models_of(r@) == sort_spec(models_of(posts@)),
        sorted(models_of(r@)),
        models_of(r@).to_multiset() == models_of(posts@).to_multiset(),
{
    let ghost orig = posts@;
    let mut rem = posts;
    let mut out: Vec<Post> = Vec::new();
    proof {
        assert(models_of(orig.take(0)) =~= Seq::<PostModel>::empty());
        assert(models_of(out@) =~= Seq::<PostModel>::empty());
        assert(orig.skip(0) =~= orig);
    }
    while rem.len() > 0
        invariant
            rem@.len() <= orig.len(),
            rem@ == orig.skip(orig.len() - rem@.len()),
            models_of(out@) == sort_spec(models_of(orig.take(orig.len() - rem@.len()))),
        decreases rem@.len(),
    {
        let ghost done = orig.len() - rem@.len();
        let p = rem.remove(0);
        proof {
            assert(p == orig[done]);
            assert(rem@ =~= orig.skip(done + 1));
        }
        insert_post(&mut out, p);
        proof {
            let m1 = models_of(orig.take(done + 1));
            assert(m1.drop_last() =~= models_of(orig.take(done as int)));
            assert(m1.last() == orig[done]@);
            assert(models_of(out@) == sort_spec(m1));
        }
    }
    proof {
        assert(orig.take(orig.len() as int) =~= orig);
        lemma_sort_spec_ensures(models_of(orig));
    }
    out
}

/// Whether the whole pipeline succeeds on every entry.
pub open spec fn entries_ok(entries: Seq<(String, String)>) -> bool {
    forall|i: int| 0 <= i < entries.len() ==> #[trigger] post_of(
        entries[i].0@,
        entries[i].1@,
    ) is Ok
}

/// The post models the pipeline yields, one per entry, in entry order.
pub open spec fn pipeline_models(entries: Seq<(String, String)>) -> Seq<PostModel> {
    Seq::new(entries.len(), |i: int| post_of(entries[i].0@, entries[i].1@)->Ok_0)
}

/// Law: whatever collection a load yields is totally ordered — ascending
/// by year, month and day, oldest first, ties broken by filename — and
/// holds exactly the posts its entries yield, nothing dropped and nothing
/// added.
pub proof fn lemma_loaded_collection_ordered(entries: Seq<(String, String)>)
    ensures
        sorted(sort_spec(pipeline_models(entries))),
        sort_spec(pipeline_models(entries)).to_multiset() == pipeline_models(entries).to_multiset(),
        sort_spec(pipeline_models(entries)).len() == entries.len(),
{
    lemma_sort_spec_ensures(pipeline_models(entries));
}

/// Load every content item: run the pipeline on each entry — an identifier
/// and the item's raw text — and order the results, oldest first.  The load
/// is fail-fast: the first entry the pipeline rejects aborts the whole load
/// with that entry's identifier and error, and no collection is returned.
pub fn load_posts(entries: &Vec<(String, String)>) -> (r: Result<Vec<Post>, LoadError>)
    ensures
        match r {
            Ok(posts) => entries_ok(entries@) && models_of(posts@) == sort_spec(
                pipeline_models(entries@),
            ),
            Err(le) => !entries_ok(entries@) && exists|i: int|
                0 <= i < entries@.len() && ((#[trigger] post_of(
                    entries@[i].0@,
                    entries@[i].1@,
                )) matches Err(e) && le.kind == e) && le.item@ == entries@[i].0@ && (forall|j: int|
                    0 <= j < i ==> post_of(entries@[j].0@, entries@[j].1@) is Ok),
        },
{
    let n: usize = entries.len();
    let mut raw: Vec<Post> = Vec::new();
    let mut k: usize = 0;
    while k < n
        invariant
            k <= n,
            n == entries@.len(),
            raw@.len() == k,
            forall|j: int| 0 <= j < k ==> #[trigger] post_of(entries@[j].0@, entries@[j].1@) is Ok,
            forall|j: int| 0 <= j < k ==> models_of(raw@)[j] == post_of(
                entries@[j].0@,
                entries@[j].1@,
            )->Ok_0,
        decreases n - k,
    {
        let e = &entries[k];
        let ghost prev = raw@;
        match make_post(e.0.as_str(), e.1.as_str()) {
            Ok(p) => {
                raw.push(p);
                proof {
                    assert forall|j: int| 0 <= j <= k implies models_of(raw@)[j] == post_of(
                        entries@[j].0@,
                        entries@[j].1@,
                    )->Ok_0 by {
                        if j < k {
                            assert(raw@[j] == prev[j]);
                            assert(models_of(prev)[j] == prev[j]@);
                        } else {
                            assert(raw@[j] == p);
                        }
                    }
                }
            },
            Err(err) => {
                return Err(LoadError { item: e.0.clone(), kind: err });
            },
        }
        k += 1;
    }
    proof {
        assert(models_of(raw@) =~= pipeline_models(entries@));
    }
    Ok(sort_posts(raw))
}

} // verus!
