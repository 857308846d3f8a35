//! Template loading and caching: content is loaded through a substitutable
//! loader and memoized by key, so each key is loaded at most once per cache.

use crate::files::line_split;
use vstd::prelude::*;

verus! {

/// A source of template content: loads the content stored under a path.
/// Implementations decide what loading means; nothing is assumed of the
/// content they return, so the cache's contract ties a fresh key's entry to
/// the returned result without fixing what that result is. (A spec method
/// on this trait could name each loader's content, but it would become a
/// required item of the compiled trait, and the loaders outside this crate
/// — the filesystem loader, substituted test loaders — could then not
/// implement the trait at all.)
pub trait TemplateLoader {
    fn load(&self, path: &String) -> String;
}

/// Provides template loading and caching utilities. The cache maps each
/// requested key to the content that its first lookup loaded; its view is
/// that map.
pub struct TemplateManager<L: TemplateLoader> {
    cache: Vec<(String, String)>,
    loader: L,
}

/// The cached entries as a map from key to content.
spec fn entries_map(entries: Seq<(String, String)>) -> Map<Seq<char>, Seq<char>>
    decreases entries.len(),
{
    if entries.len() == 0 {
        Map::empty()
    } else {
        entries_map(entries.drop_last()).insert(entries.last().0@, entries.last().1@)
    }
}

/// A key is in the entry map exactly when some entry holds it.
proof fn lemma_entries_map_contains(entries: Seq<(String, String)>, k: Seq<char>)
    ensures
        entries_map(entries).contains_key(k) <==> exists|i: int|
            0 <= i < entries.len() && #[trigger] entries[i].0@ == k,
    decreases entries.len(),
{
    if entries.len() > 0 {
        lemma_entries_map_contains(entries.drop_last(), k);
        if entries.last().0@ == k {
            assert(entries[entries.len() - 1].0@ == k);
        } else if entries_map(entries).contains_key(k) {
            let i = choose|i: int| 0 <= i < entries.len() - 1 && #[trigger] entries.drop_last()[i].0@
                == k;
            assert(entries[i].0@ == k);
        } else {
            if exists|i: int| 0 <= i < entries.len() && #[trigger] entries[i].0@ == k {
                let i = choose|i: int| 0 <= i < entries.len() && #[trigger] entries[i].0@ == k;
                assert(i < entries.len() - 1);
                assert(entries.drop_last()[i].0@ == k);
            }
        }
    }
}

/// When keys are distinct, an entry's content is what the map holds for it.
proof fn lemma_entries_map_at(entries: Seq<(String, String)>, i: int)
    requires
        0 <= i < entries.len(),
        forall|p: int, q: int|
            0 <= p < q < entries.len() ==> #[trigger] entries[p].0@ != #[trigger] entries[q].0@,
    ensures
        entries_map(entries).contains_key(entries[i].0@),
        entries_map(entries)[entries[i].0@] == entries[i].1@,
    decreases entries.len(),
{
    if i < entries.len() - 1 {
        assert(forall|p: int, q: int|
            0 <= p < q < entries.len() - 1 ==> #[trigger] entries.drop_last()[p].0@
                != #[trigger] entries.drop_last()[q].0@);
        lemma_entries_map_at(entries.drop_last(), i);
        assert(entries.drop_last()[i] == entries[i]);
        assert(entries[i].0@ != entries.last().0@);
    }
}

/// What one cache lookup does: a key already cached leaves the cache as it
/// is and yields the cached content; a key not yet cached is added with the
/// content that came back, and that content is yielded.
pub open spec fn lookup_post(
    before: Map<Seq<char>, Seq<char>>,
    key: Seq<char>,
    content: Seq<char>,
    after: Map<Seq<char>, Seq<char>>,
) -> bool {
    &&& after == if before.contains_key(key) {
        before
    } else {
        before.insert(key, content)
    }
    &&& after.contains_key(key)
    &&& content == after[key]
}

/// Requesting the same key twice yields identical content both times: the
/// second lookup hits the cache that the first lookup filled, whatever the
/// loader would return for it now.
pub proof fn lemma_repeated_lookup_same_content(
    m0: Map<Seq<char>, Seq<char>>,
    key: Seq<char>,
    c1: Seq<char>,
    m1: Map<Seq<char>, Seq<char>>,
    c2: Seq<char>,
    m2: Map<Seq<char>, Seq<char>>,
)
    requires
        lookup_post(m0, key, c1, m1),
        lookup_post(m1, key, c2, m2),
    ensures
        c2 == c1,
        m2 == m1,
{
}

impl<L: TemplateLoader> View for TemplateManager<L> {
    type V = Map<Seq<char>, Seq<char>>;

    closed spec fn view(&self) -> Map<Seq<char>, Seq<char>> {
        entries_map(self.cache@)
    }
}

impl<L: TemplateLoader> TemplateManager<L> {
    /// The loader this cache reads through.
    pub closed spec fn spec_loader(&self) -> L {
        self.loader
    }

    /// The cache holds no two entries for the same key.
    pub closed spec fn wf(&self) -> bool {
        forall|p: int, q: int|
            0 <= p < q < self.cache@.len() ==> #[trigger] self.cache@[p].0@
                != #[trigger] self.cache@[q].0@
    }

    /// Creates a new instance with a specific loader and an empty cache.
    pub fn with_loader(loader: L) -> (r: TemplateManager<L>)
        ensures
            r.wf(),
            r@ == Map::<Seq<char>, Seq<char>>::empty(),
            r.spec_loader() == loader,
    {
        let r = TemplateManager { cache: Vec::new(), loader };
        proof {
            assert(r.cache@.len() == 0);
        }
        r
    }

    /// Gets content from the cache, or through the loader on the first
    /// request for this key.
    pub fn get(&mut self, key: &String) -> (r: Option<String>)
        requires
            old(self).wf(),
        ensures
            final(self).wf(),
            final(self).spec_loader() == old(self).spec_loader(),
            r is Some,
            r matches Some(content) ==> lookup_post(old(self)@, key@, content@, final(self)@),
    {
        let mut i: usize = 0;
        while i < self.cache.len()
            invariant
                *self == *old(self),
                self.wf(),
                i <= self.cache@.len(),
                forall|k: int| 0 <= k < i ==> #[trigger] self.cache@[k].0@ != key@,
            decreases self.cache@.len() - i,
        {
            if self.cache[i].0 == *key {
                let content = self.cache[i].1.clone();
                proof {
                    lemma_entries_map_at(self.cache@, i as int);
                    lemma_entries_map_contains(self.cache@, key@);
                }
                return Some(content);
            }
            i = i + 1;
        }
        proof {
            lemma_entries_map_contains(self.cache@, key@);
        }
        let content = self.loader.load(key);
        let ghost old_entries = self.cache@;
        self.cache.push((key.clone(), content.clone()));
        proof {
            assert(self.cache@.drop_last() =~= old_entries);
            assert(self.cache@.last().0@ == key@);
            assert(self.cache@.last().1@ == content@);
            assert forall|p: int, q: int| 0 <= p < q < self.cache@.len() implies #[trigger] self
                .cache@[p].0@ != #[trigger] self.cache@[q].0@ by {
                if q < self.cache@.len() - 1 {
                    assert(old_entries[p] == self.cache@[p]);
                    assert(old_entries[q] == self.cache@[q]);
                } else {
                    assert(old_entries[p] == self.cache@[p]);
                }
            }
        }
        Some(content)
    }

    /// Gets content as a vector of lines from the cache or the loader.
    pub fn get_lines(&mut self, key: &String) -> (r: Option<Vec<String>>)
        requires
            old(self).wf(),
        ensures
            final(self).wf(),
            final(self).spec_loader() == old(self).spec_loader(),
            r is Some,
            r matches Some(lines) ==> {
                &&& lookup_post(old(self)@, key@, final(self)@[key@], final(self)@)
                &&& lines.deep_view() == line_split(final(self)@[key@])
            },
    {
        match self.get(key) {
            Some(content) => Some(crate::files::get_lines(content.as_str())),
            None => None,
        }
    }
}

} // verus!
