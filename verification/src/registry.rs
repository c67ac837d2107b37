//! The tool registry: tools kept in registration order, found by id, and
//! listed by category and id.

use vstd::prelude::*;
use vstd::string::StringSliceAdditionalSpecFns;
use vstd::utf8::encode_utf8;
use crate::category::category_rank;
use crate::error::ToolError;
use crate::text::str_equal;
use crate::tool::{Tool, ToolMetadata, describes};

verus! {

/// `a` comes before `b` in the byte-wise comparison that orders `str`.
pub open spec fn bytes_lt(a: Seq<u8>, b: Seq<u8>) -> bool
    decreases a.len(),
{
    if a.len() == 0 {
        b.len() > 0
    } else if b.len() == 0 {
        false
    } else if a[0] < b[0] {
        true
    } else if a[0] == b[0] {
        bytes_lt(a.drop_first(), b.drop_first())
    } else {
        false
    }
}

/// The order of a tool listing: by category rank, then by id.
pub open spec fn listed_before<T: Tool>(a: T, b: T) -> bool {
    ||| category_rank(a.spec_category()) < category_rank(b.spec_category())
    ||| (category_rank(a.spec_category()) == category_rank(b.spec_category()) && bytes_lt(
        encode_utf8(a.spec_id()),
        encode_utf8(b.spec_id()),
    ))
}

/// Inserts `x` into a listing after every entry that does not come after it.
pub open spec fn insert_listing<T: Tool>(s: Seq<T>, x: T) -> Seq<T>
    decreases s.len(),
{
    if s.len() == 0 {
        seq![x]
    } else if listed_before(x, s[0]) {
        seq![x] + s
    } else {
        seq![s[0]] + insert_listing(s.drop_first(), x)
    }
}

/// The tools `s` in listing order: a stable sort by [`listed_before`].
pub open spec fn listing<T: Tool>(s: Seq<T>) -> Seq<T>
    decreases s.len(),
{
    if s.len() == 0 {
        Seq::empty()
    } else {
        insert_listing(listing(s.drop_last()), s.last())
    }
}

/// The index of the first tool of `s` with id `id`.
pub open spec fn is_first_with_id<T: Tool>(s: Seq<T>, id: Seq<char>, k: int) -> bool {
    &&& 0 <= k < s.len()
    &&& s[k].spec_id() == id
    &&& forall|j: int| 0 <= j < k ==> s[j].spec_id() != id
}

/// Some tool of `s` has id `id`.
pub open spec fn has_id<T: Tool>(s: Seq<T>, id: Seq<char>) -> bool {
    exists|k: int| 0 <= k < s.len() && s[k].spec_id() == id
}

/// Inserting at the first entry that comes after `x` is [`insert_listing`].
proof fn lemma_insert_listing_at<T: Tool>(s: Seq<T>, x: T, p: int)
    requires
        0 <= p <= s.len(),
        forall|j: int| 0 <= j < p ==> !listed_before(x, #[trigger] s[j]),
        p < s.len() ==> listed_before(x, s[p]),
    ensures
        insert_listing(s, x) == s.insert(p, x),
    decreases s.len(),
{
    if s.len() == 0 {
        assert(s.insert(p, x) =~= seq![x]);
    } else if p == 0 {
        assert(s.insert(p, x) =~= seq![x] + s);
    } else {
        let t = s.drop_first();
        assert forall|j: int| 0 <= j < p - 1 implies !listed_before(x, #[trigger] t[j]) by {
            assert(t[j] == s[j + 1]);
        }
        lemma_insert_listing_at(t, x, p - 1);
        assert(s.insert(p, x) =~= seq![s[0]] + t.insert(p - 1, x));
    }
}

/// A listing holds as many tools as it lists.
pub proof fn lemma_listing_len<T: Tool>(s: Seq<T>)
    ensures
        listing(s).len() == s.len(),
    decreases s.len(),
{
    if s.len() > 0 {
        lemma_listing_len(s.drop_last());
        lemma_insert_listing_len(listing(s.drop_last()), s.last());
    }
}

proof fn lemma_insert_listing_len<T: Tool>(s: Seq<T>, x: T)
    ensures
        insert_listing(s, x).len() == s.len() + 1,
    decreases s.len(),
{
    if s.len() > 0 {
        lemma_insert_listing_len(s.drop_first(), x);
    }
}

/// Byte-wise `a < b` on two byte strings.
fn bytes_less(a: &[u8], b: &[u8]) -> (r: bool)
    ensures
        r == bytes_lt(a@, b@),
{
    let mut i: usize = 0;
    assert(a@.skip(0) =~= a@);
    assert(b@.skip(0) =~= b@);
    while i < a.len() && i < b.len()
        invariant
            i <= a@.len(),
            i <= b@.len(),
            bytes_lt(a@, b@) == bytes_lt(a@.skip(i as int), b@.skip(i as int)),
        decreases a.len() - i,
    {
        let x = a[i];
        let y = b[i];
        assert(a@.skip(i as int)[0] == x);
        assert(b@.skip(i as int)[0] == y);
        if x < y {
            return true;
        }
        if x > y {
            return false;
        }
        assert(a@.skip(i as int).drop_first() =~= a@.skip(i + 1));
        assert(b@.skip(i as int).drop_first() =~= b@.skip(i + 1));
        i = i + 1;
    }
    i < b.len()
}

/// `a` is listed before `b` (by category rank, then by id bytes).
fn meta_before(a: &ToolMetadata, b: &ToolMetadata) -> (r: bool)
    ensures
        r == (category_rank(a.category) < category_rank(b.category) || (category_rank(a.category)
            == category_rank(b.category) && bytes_lt(a.id.spec_bytes(), b.id.spec_bytes()))),
{
    let x = a.category.order();
    let y = b.category.order();
    if x < y {
        true
    } else if x == y {
        bytes_less(a.id.as_bytes(), b.id.as_bytes())
    } else {
        false
    }
}

/// A set of tools, kept in the order they were registered.
pub struct ToolRegistry<T: Tool> {
    tools: Vec<(String, T)>,
}

impl<T: Tool> ToolRegistry<T> {
    /// Each entry's key is its tool's id.
    #[verifier::type_invariant]
    closed spec fn keys_match(&self) -> bool {
        forall|i: int| 0 <= i < self.tools@.len() ==> #[trigger] self.tools@[i].0@ == self.tools@[i].1.spec_id()
    }

    /// The registered tools, in registration order.
    pub closed spec fn entries(&self) -> Seq<T> {
        self.tools@.map_values(|e: (String, T)| e.1)
    }

    /// An empty registry.
    pub fn new() -> (r: Self)
        ensures
            r.entries() == Seq::<T>::empty(),
    {
        let r = ToolRegistry { tools: Vec::new() };
        assert(r.entries() =~= Seq::<T>::empty());
        r
    }

    /// Registers a tool after those already there.
    pub fn register(&mut self, tool: T) -> (r: &mut Self)
        ensures
            r.entries() == old(self).entries().push(tool),
            *final(self) == *final(r),
    {
        proof {
            use_type_invariant(&*self);
        }
        let id = String::from_str(tool.id());
        let mut tools = Vec::new();
        std::mem::swap(&mut tools, &mut self.tools);
        tools.push((id, tool));
        self.tools = tools;
        assert(self.entries() =~= old(self).entries().push(tool));
        self
    }

    /// Registers several tools, in the order given.
    pub fn register_all(&mut self, tools: Vec<T>) -> (r: &mut Self)
        ensures
            r.entries() == old(self).entries() + tools@,
            *final(self) == *final(r),
    {
        proof {
            use_type_invariant(&*self);
        }
        let ghost start = self.entries();
        let ghost all = tools@;
        let mut mine = Vec::new();
        std::mem::swap(&mut mine, &mut self.tools);
        assert(mine@.map_values(|e: (String, T)| e.1) == start);
        for t in it: tools
            invariant
                it.seq() == all,
                mine@.map_values(|e: (String, T)| e.1) == start + all.take(it.index() as int),
                forall|i: int| 0 <= i < mine@.len() ==> #[trigger] mine@[i].0@ == mine@[i].1.spec_id(),
        {
            let ghost k = it.index();
            assert(t == all[k as int]);
            let ghost before = mine@;
            let id = String::from_str(t.id());
            mine.push((id, t));
            assert(mine@.map_values(|e: (String, T)| e.1) =~= before.map_values(|e: (String, T)| e.1).push(t));
            assert(all.take(k + 1) =~= all.take(k as int).push(t));
        }
        assert(all.take(all.len() as int) =~= all);
        self.tools = mine;
        self
    }

    /// The position of the first tool with id `id`.
    fn position(&self, id: &str) -> (r: Option<usize>)
        ensures
            r matches Some(k) ==> is_first_with_id(self.entries(), id@, k as int),
            r is None ==> !has_id(self.entries(), id@),
    {
        proof {
            use_type_invariant(self);
        }
        let mut i: usize = 0;
        while i < self.tools.len()
            invariant
                i <= self.tools@.len(),
                self.entries().len() == self.tools@.len(),
                forall|k: int| 0 <= k < self.tools@.len() ==> #[trigger] self.tools@[k].0@ == self.tools@[k].1.spec_id(),
                forall|j: int| 0 <= j < i ==> self.entries()[j].spec_id() != id@,
            decreases self.tools.len() - i,
        {
            assert(self.entries()[i as int] == self.tools@[i as int].1);
            if str_equal(self.tools[i].0.as_str(), id) {
                return Some(i);
            }
            i = i + 1;
        }
        None
    }

    /// The first registered tool with id `id`; `NotFound` when there is none.
    pub fn get(&self, id: &str) -> (r: Result<&T, ToolError>)
        ensures
            r is Ok <==> has_id(self.entries(), id@),
            r matches Ok(t) ==> exists|k: int| is_first_with_id(self.entries(), id@, k) && *t == self.entries()[k],
            r matches Err(e) ==> e matches ToolError::NotFound(m) && m@ == id@,
    {
        match self.position(id) {
            Some(k) => {
                assert(self.entries()[k as int] == self.tools@[k as int].1);
                Ok(&self.tools[k].1)
            },
            None => Err(ToolError::NotFound(String::from_str(id))),
        }
    }


    /// The listing entries of all tools, ordered by category rank and then
    /// by id (tools that compare equal keep their registration order).
    pub fn list_metadata(&self) -> (r: Vec<ToolMetadata>)
        ensures
            r@.len() == self.entries().len(),
            forall|i: int| 0 <= i < r@.len() ==> describes(#[trigger] r@[i], &listing(self.entries())[i]),
    {
        let n = self.tools.len();
        let mut out: Vec<ToolMetadata> = Vec::new();
        let ghost mut sorted: Seq<T> = Seq::empty();
        let mut i: usize = 0;
        while i < n
            invariant
                n == self.tools@.len(),
                self.entries().len() == n,
                i <= n,
                sorted == listing(self.entries().take(i as int)),
                out@.len() == sorted.len(),
                forall|j: int| 0 <= j < out@.len() ==> describes(#[trigger] out@[j], &sorted[j]),
            decreases n - i,
        {
            let ghost t = self.entries()[i as int];
            assert(t == self.tools@[i as int].1);
            let m = self.tools[i].1.metadata();
            let mut p: usize = 0;
            while p < out.len() && !meta_before(&m, &out[p])
                invariant
                    p <= out@.len(),
                    out@.len() == sorted.len(),
                    describes(m, &t),
                    forall|j: int| 0 <= j < out@.len() ==> describes(#[trigger] out@[j], &sorted[j]),
                    forall|j: int| 0 <= j < p ==> !listed_before(t, #[trigger] sorted[j]),
                decreases out.len() - p,
            {
                assert(describes(out@[p as int], &sorted[p as int]));
                p = p + 1;
            }
            proof {
                if p < out@.len() {
                    assert(describes(out@[p as int], &sorted[p as int]));
                }
                lemma_insert_listing_at(sorted, t, p as int);
                assert(self.entries().take(i + 1).drop_last() =~= self.entries().take(i as int));
            }
            let ghost prev_out = out@;
            let ghost prev_sorted = sorted;
            out.insert(p, m);
            proof {
                sorted = sorted.insert(p as int, t);
                assert forall|j: int| 0 <= j < out@.len() implies describes(#[trigger] out@[j], &sorted[j]) by {
                    if j < p {
                        assert(out@[j] == prev_out[j] && sorted[j] == prev_sorted[j]);
                        assert(describes(prev_out[j], &prev_sorted[j]));
                    } else if j > p {
                        assert(out@[j] == prev_out[j - 1] && sorted[j] == prev_sorted[j - 1]);
                        assert(describes(prev_out[j - 1], &prev_sorted[j - 1]));
                    }
                }
            }
            i = i + 1;
        }
        assert(self.entries().take(n as int) =~= self.entries());
        proof {
            lemma_listing_len(self.entries());
        }
        out
    }

    /// The number of registered tools.
    pub fn len(&self) -> (r: usize)
        ensures
            r == self.entries().len(),
    {
        self.tools.len()
    }

    /// Whether no tool is registered.
    pub fn is_empty(&self) -> (r: bool)
        ensures
            r == (self.entries().len() == 0),
    {
        self.tools.len() == 0
    }
}

impl<T: Tool + Clone> ToolRegistry<T> {
    /// A handle on the first registered tool with id `id` (a clone of the
    /// stored one); `NotFound` when there is none.
    pub fn get_arc(&self, id: &str) -> (r: Result<T, ToolError>)
        ensures
            r is Ok <==> has_id(self.entries(), id@),
            r matches Ok(t) ==> exists|k: int| is_first_with_id(self.entries(), id@, k) && cloned(self.entries()[k], t),
            r matches Err(e) ==> e matches ToolError::NotFound(m) && m@ == id@,
    {
        match self.position(id) {
            Some(k) => {
                assert(self.entries()[k as int] == self.tools@[k as int].1);
                Ok(self.tools[k].1.clone())
            },
            None => Err(ToolError::NotFound(String::from_str(id))),
        }
    }
}

/// The answer to a request for the tool list.
pub struct ToolListResponse {
    /// The listing entries, by category and id.
    pub tools: Vec<ToolMetadata>,
    /// How many tools there are.
    pub total: usize,
}

impl ToolListResponse {
    /// The tool list of a registry.
    pub fn from_registry<T: Tool>(registry: &ToolRegistry<T>) -> (r: ToolListResponse)
        ensures
            r.total == registry.entries().len(),
            r.tools@.len() == r.total,
            forall|i: int| 0 <= i < r.tools@.len() ==> describes(#[trigger] r.tools@[i], &listing(registry.entries())[i]),
    {
        let tools = registry.list_metadata();
        let total = tools.len();
        ToolListResponse { tools, total }
    }
}

proof fn lemma_bytes_lt_irreflexive(a: Seq<u8>)
    ensures
        !bytes_lt(a, a),
    decreases a.len(),
{
    if a.len() > 0 {
        lemma_bytes_lt_irreflexive(a.drop_first());
    }
}

proof fn lemma_bytes_lt_transitive(a: Seq<u8>, b: Seq<u8>, c: Seq<u8>)
    requires
        bytes_lt(a, b),
        bytes_lt(b, c),
    ensures
        bytes_lt(a, c),
    decreases a.len(),
{
    if a.len() > 0 && b.len() > 0 && c.len() > 0 && a[0] == b[0] && b[0] == c[0] {
        lemma_bytes_lt_transitive(a.drop_first(), b.drop_first(), c.drop_first());
    }
}

proof fn lemma_listed_before_order<T: Tool>(a: T, b: T, c: T)
    ensures
        !listed_before(a, a),
        listed_before(a, b) && listed_before(b, c) ==> listed_before(a, c),
{
    lemma_bytes_lt_irreflexive(encode_utf8(a.spec_id()));
    if listed_before(a, b) && listed_before(b, c) {
        if category_rank(a.spec_category()) == category_rank(b.spec_category()) && category_rank(
            b.spec_category(),
        ) == category_rank(c.spec_category()) {
            lemma_bytes_lt_transitive(
                encode_utf8(a.spec_id()),
                encode_utf8(b.spec_id()),
                encode_utf8(c.spec_id()),
            );
        }
    }
}

/// Where [`insert_listing`] puts `x`: before the first entry that comes
/// after it.
pub open spec fn insert_point<T: Tool>(s: Seq<T>, x: T) -> int
    decreases s.len(),
{
    if s.len() == 0 {
        0
    } else if listed_before(x, s[0]) {
        0
    } else {
        1 + insert_point(s.drop_first(), x)
    }
}

proof fn lemma_insert_point<T: Tool>(s: Seq<T>, x: T)
    ensures
        0 <= insert_point(s, x) <= s.len(),
        forall|j: int| 0 <= j < insert_point(s, x) ==> !listed_before(x, #[trigger] s[j]),
        insert_point(s, x) < s.len() ==> listed_before(x, s[insert_point(s, x)]),
        insert_listing(s, x) == s.insert(insert_point(s, x), x),
    decreases s.len(),
{
    if s.len() > 0 && !listed_before(x, s[0]) {
        let t = s.drop_first();
        lemma_insert_point(t, x);
        assert forall|j: int| 0 <= j < insert_point(s, x) implies !listed_before(x, #[trigger] s[j]) by {
            if j > 0 {
                assert(s[j] == t[j - 1]);
            }
        }
    }
    lemma_insert_listing_at(s, x, insert_point(s, x));
}

/// The entries are in listing order: no entry comes after a later one.
pub open spec fn in_listing_order<T: Tool>(s: Seq<T>) -> bool {
    forall|i: int, j: int| 0 <= i < j < s.len() ==> !listed_before(#[trigger] s[j], #[trigger] s[i])
}

proof fn lemma_insert_keeps_order<T: Tool>(s: Seq<T>, x: T)
    requires
        in_listing_order(s),
    ensures
        in_listing_order(insert_listing(s, x)),
{
    lemma_insert_point(s, x);
    let p = insert_point(s, x);
    let r = s.insert(p, x);
    assert forall|i: int, j: int| 0 <= i < j < r.len() implies !listed_before(#[trigger] r[j], #[trigger] r[i]) by {
        if j < p {
            assert(r[i] == s[i] && r[j] == s[j]);
        } else if j == p {
            assert(r[i] == s[i] && r[j] == x);
        } else if i > p {
            assert(r[i] == s[i - 1] && r[j] == s[j - 1]);
        } else if i == p {
            assert(r[i] == x && r[j] == s[j - 1]);
            lemma_listed_before_order(s[j - 1], x, s[p]);
            lemma_listed_before_order(x, s[p], s[j - 1]);
            lemma_listed_before_order(s[p], s[j - 1], x);
        } else {
            assert(r[i] == s[i] && r[j] == s[j - 1]);
        }
    }
}

/// A listing is sorted: by category rank, then by id, no tool is listed
/// after a tool that should follow it.
pub proof fn law_listing_sorted<T: Tool>(s: Seq<T>)
    ensures
        in_listing_order(listing(s)),
    decreases s.len(),
{
    if s.len() > 0 {
        law_listing_sorted(s.drop_last());
        lemma_insert_keeps_order(listing(s.drop_last()), s.last());
    }
}

/// A listing lists every registered tool exactly as often as it was
/// registered.
pub proof fn law_listing_permutation<T: Tool>(s: Seq<T>)
    ensures
        listing(s).to_multiset() == s.to_multiset(),
    decreases s.len(),
{
    if s.len() > 0 {
        let t = s.drop_last();
        let x = s.last();
        assert(t.push(x) =~= s);
        law_listing_permutation(t);
        lemma_insert_point(listing(t), x);
        lemma_listing_len(t);
        let p = insert_point(listing(t), x);
        assert(listing(s) == listing(t).insert(p, x));
        vstd::seq_lib::to_multiset_insert(listing(t), p, x);
        vstd::seq_lib::to_multiset_build(t, x);
        assert(listing(s).to_multiset() == listing(t).to_multiset().insert(x));
        assert(s.to_multiset() == t.to_multiset().insert(x));
    } else {
        assert(listing(s) =~= s);
    }
}

/// Registering a tool whose id is new makes it the one found by that id;
/// registering never changes which tool an already known id finds.
pub proof fn law_register_then_get<T: Tool>(s: Seq<T>, t: T, id: Seq<char>)
    ensures
        has_id(s.push(t), t.spec_id()),
        !has_id(s, t.spec_id()) ==> is_first_with_id(s.push(t), t.spec_id(), s.len() as int),
        forall|k: int| is_first_with_id(s, id, k) ==> is_first_with_id(s.push(t), id, k),
{
    let u = s.push(t);
    assert(u[s.len() as int] == t);
    assert forall|k: int| is_first_with_id(s, id, k) implies is_first_with_id(u, id, k) by {
        assert(u[k] == s[k]);
        assert forall|j: int| 0 <= j < k implies u[j].spec_id() != id by {
            assert(u[j] == s[j]);
        }
    }
    if !has_id(s, t.spec_id()) {
        assert forall|j: int| 0 <= j < s.len() implies u[j].spec_id() != t.spec_id() by {
            assert(u[j] == s[j]);
        }
    }
}

} // verus!
