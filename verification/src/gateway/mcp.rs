//! Connections of MCP clients: each holds the items of its last traversal,
//! which the client reads one at a time or in ranges.
use vstd::prelude::*;
use crate::engine::traversal_value::TraversalValue;
use crate::gateway::tools::ToolArgs;
use crate::utils::id::{uuid_hyphenated, uuid_now_v6, uuid_to_string, v6_with_node};
use crate::utils::text::str_equal;

verus! {

/// An MCP connection: its ID and the items of its last traversal, of which
/// those at `cursor` and after have not been read yet.
pub struct MCPConnection {
    pub connection_id: String,
    pub items: Vec<TraversalValue>,
    pub cursor: usize,
}

impl MCPConnection {
    /// The items not read yet.
    pub open spec fn remaining(&self) -> Seq<TraversalValue> {
        if self.cursor <= self.items@.len() {
            self.items@.skip(self.cursor as int)
        } else {
            Seq::empty()
        }
    }

    /// A connection whose items are `items`, none read yet.
    pub fn new(connection_id: String, items: Vec<TraversalValue>) -> (r: Self)
        ensures
            r.connection_id == connection_id,
            r.remaining() == items@,
    {
        let r = MCPConnection { connection_id, items, cursor: 0 };
        assert(r.items@.skip(0) =~= r.items@);
        r
    }

    /// Reads the next item, if any is left.
    pub fn next_item(&mut self) -> (r: Option<TraversalValue>)
        ensures
            final(self).connection_id == old(self).connection_id,
            old(self).remaining().len() > 0 ==> r == Some(old(self).remaining()[0])
                && final(self).remaining() == old(self).remaining().drop_first(),
            old(self).remaining().len() == 0 ==> r is None && final(self).remaining().len() == 0,
    {
        if self.cursor < self.items.len() {
            let ghost before = self.remaining();
            let i = self.cursor;
            let mut v = TraversalValue::Empty;
            std::mem::swap(&mut v, &mut self.items[i]);
            self.cursor = i + 1;
            assert(self.remaining() =~= before.drop_first());
            Some(v)
        } else {
            None
        }
    }

    /// Takes the items from the `start`-th to before the `end`-th of those
    /// not read yet (fewer where fewer are left), and leaves none unread.
    pub fn take_range(&mut self, start: usize, end: usize) -> (r: Vec<TraversalValue>)
        requires
            start <= end,
        ensures
            final(self).connection_id == old(self).connection_id,
            final(self).remaining().len() == 0,
            r@ == range_of(old(self).remaining(), start as int, end as int),
    {
        let mut out: Vec<TraversalValue> = Vec::new();
        let ghost rem = self.remaining();
        if self.cursor > self.items.len() {
            self.cursor = self.items.len();
        }
        assert(self.remaining() == rem);
        let ghost n = self.items@.len();
        let mut k: usize = 0;
        while self.cursor < self.items.len()
            invariant
                self.connection_id == old(self).connection_id,
                start <= end,
                self.cursor <= self.items@.len(),
                self.items@.len() == n,
                n <= usize::MAX,
                rem.len() <= n,
                self.remaining() == rem.skip(k as int),
                k <= rem.len(),
                k + (self.items@.len() - self.cursor) == rem.len(),
                out@ == range_of(rem.take(k as int), start as int, end as int),
            decreases self.items@.len() - self.cursor,
        {
            let i = self.cursor;
            assert(self.remaining()[0] == self.items@[i as int]);
            assert(rem.skip(k as int)[0] == rem[k as int]);
            assert(self.items@[i as int] == rem[k as int]);
            let mut item = TraversalValue::Empty;
            std::mem::swap(&mut item, &mut self.items[i]);
            self.cursor = i + 1;
            assert(rem.skip(k as int)[0] == rem[k as int]);
            assert(rem.skip(k as int).drop_first() =~= rem.skip(k + 1));
            assert(self.remaining() =~= rem.skip(k + 1));
            assert(rem.take(k + 1) =~= rem.take(k as int).push(rem[k as int]));
            assert(rem.take(k + 1).drop_last() =~= rem.take(k as int));
            if start <= k && k < end {
                out.push(item);
            }
            k = k + 1;
        }
        assert(rem.take(k as int) =~= rem);
        out
    }
}

/// The items of `s` from position `start` to before `end`, clipped to `s`.
pub open spec fn range_of(s: Seq<TraversalValue>, start: int, end: int) -> Seq<TraversalValue>
    decreases s.len(),
{
    if s.len() == 0 {
        Seq::empty()
    } else {
        let rest = range_of(s.drop_last(), start, end);
        let k = s.len() - 1;
        if start <= k < end {
            rest.push(s.last())
        } else {
            rest
        }
    }
}

/// The connections by ID: for each ID, the connection last added under it.
pub open spec fn connections_map(s: Seq<MCPConnection>) -> Map<Seq<char>, MCPConnection>
    decreases s.len(),
{
    if s.len() == 0 {
        Map::empty()
    } else {
        connections_map(s.drop_last()).insert(s.last().connection_id@, s.last())
    }
}

/// No two connections share an ID.
pub open spec fn distinct_ids(s: Seq<MCPConnection>) -> bool {
    forall|i: int, j: int|
        0 <= i < j < s.len() ==> (#[trigger] s[i]).connection_id@ != (#[trigger] s[j]).connection_id@
}

proof fn lemma_map_domain(s: Seq<MCPConnection>, k: Seq<char>)
    ensures
        connections_map(s).contains_key(k) <==> exists|i: int| 0 <= i < s.len() && (#[trigger] s[i]).connection_id@ == k,
    decreases s.len(),
{
    if s.len() > 0 {
        lemma_map_domain(s.drop_last(), k);
        if connections_map(s.drop_last()).contains_key(k) {
            let i = choose|i: int| 0 <= i < s.drop_last().len() && (#[trigger] s.drop_last()[i]).connection_id@ == k;
            assert(s[i] == s.drop_last()[i]);
        }
        if exists|i: int| 0 <= i < s.len() && (#[trigger] s[i]).connection_id@ == k {
            let i = choose|i: int| 0 <= i < s.len() && (#[trigger] s[i]).connection_id@ == k;
            if i < s.len() - 1 {
                assert(s.drop_last()[i] == s[i]);
            }
        }
    }
}

proof fn lemma_map_keys(s: Seq<MCPConnection>, k: Seq<char>)
    ensures
        connections_map(s).contains_key(k) ==> connections_map(s)[k].connection_id@ == k,
    decreases s.len(),
{
    if s.len() > 0 {
        lemma_map_keys(s.drop_last(), k);
    }
}

proof fn lemma_map_at(s: Seq<MCPConnection>, i: int)
    requires
        distinct_ids(s),
        0 <= i < s.len(),
    ensures
        connections_map(s).contains_key(s[i].connection_id@),
        connections_map(s)[s[i].connection_id@] == s[i],
    decreases s.len(),
{
    if i < s.len() - 1 {
        assert(distinct_ids(s.drop_last()));
        lemma_map_at(s.drop_last(), i);
        assert(s.drop_last()[i] == s[i]);
        assert(s[i].connection_id@ != s[s.len() - 1].connection_id@);
    }
}

proof fn lemma_map_update(s: Seq<MCPConnection>, i: int, c: MCPConnection)
    requires
        distinct_ids(s),
        0 <= i < s.len(),
        c.connection_id@ == s[i].connection_id@,
    ensures
        distinct_ids(s.update(i, c)),
        connections_map(s.update(i, c)) == connections_map(s).insert(c.connection_id@, c),
    decreases s.len(),
{
    let t = s.update(i, c);
    assert forall|a: int, b: int| 0 <= a < b < t.len() implies (#[trigger] t[a]).connection_id@ != (#[trigger] t[b]).connection_id@ by {
        assert(s[a].connection_id@ != s[b].connection_id@);
    }
    if i == s.len() - 1 {
        assert(t.drop_last() =~= s.drop_last());
        lemma_map_domain(s.drop_last(), c.connection_id@);
        assert(connections_map(t) =~= connections_map(s).insert(c.connection_id@, c));
    } else {
        assert(distinct_ids(s.drop_last()));
        lemma_map_update(s.drop_last(), i, c);
        assert(t.drop_last() =~= s.drop_last().update(i, c));
        assert(s.last().connection_id@ != c.connection_id@);
        assert(connections_map(t) =~= connections_map(s).insert(c.connection_id@, c));
    }
}

proof fn lemma_map_update_any(s: Seq<MCPConnection>, i: int)
    requires
        distinct_ids(s),
        0 <= i < s.len(),
    ensures
        forall|c: MCPConnection| #![trigger s.update(i, c)]
            c.connection_id@ == s[i].connection_id@ ==> {
                &&& distinct_ids(s.update(i, c))
                &&& connections_map(s.update(i, c)) == connections_map(s).insert(c.connection_id@, c)
            },
{
    assert forall|c: MCPConnection| #![trigger s.update(i, c)]
        c.connection_id@ == s[i].connection_id@ implies {
            &&& distinct_ids(s.update(i, c))
            &&& connections_map(s.update(i, c)) == connections_map(s).insert(c.connection_id@, c)
        } by {
        lemma_map_update(s, i, c);
    }
}

proof fn lemma_map_remove(s: Seq<MCPConnection>, i: int)
    requires
        distinct_ids(s),
        0 <= i < s.len(),
    ensures
        distinct_ids(s.remove(i)),
        connections_map(s.remove(i)) == connections_map(s).remove(s[i].connection_id@),
    decreases s.len(),
{
    let t = s.remove(i);
    let k = s[i].connection_id@;
    assert forall|a: int, b: int| 0 <= a < b < t.len() implies (#[trigger] t[a]).connection_id@ != (#[trigger] t[b]).connection_id@ by {
        let a2 = if a < i { a } else { a + 1 };
        let b2 = if b < i { b } else { b + 1 };
        assert(t[a] == s[a2]);
        assert(t[b] == s[b2]);
        assert(s[a2].connection_id@ != s[b2].connection_id@);
    }
    if i == s.len() - 1 {
        assert(t =~= s.drop_last());
        assert(distinct_ids(s.drop_last()));
        if connections_map(s.drop_last()).contains_key(k) {
            lemma_map_domain(s.drop_last(), k);
            let j = choose|j: int| 0 <= j < s.drop_last().len() && (#[trigger] s.drop_last()[j]).connection_id@ == k;
            assert(s[j] == s.drop_last()[j]);
            assert(false);
        }
        assert(connections_map(t) =~= connections_map(s).remove(k));
    } else {
        assert(distinct_ids(s.drop_last()));
        lemma_map_remove(s.drop_last(), i);
        assert(t.drop_last() =~= s.drop_last().remove(i));
        assert(t.last() == s.last());
        assert(s.last().connection_id@ != k);
        assert(connections_map(t) =~= connections_map(s).remove(k));
    }
}

/// A connection added can be found under its ID, and the other IDs keep
/// their connections.
pub proof fn law_added_connection_found(
    before: Map<Seq<char>, MCPConnection>,
    after: Map<Seq<char>, MCPConnection>,
    c: MCPConnection,
    other: Seq<char>,
)
    requires
        after == before.insert(c.connection_id@, c),
    ensures
        after.contains_key(c.connection_id@),
        after[c.connection_id@] == c,
        other != c.connection_id@ ==> (after.contains_key(other) == before.contains_key(other)),
        other != c.connection_id@ && before.contains_key(other) ==> after[other] == before[other],
{
}

/// A connection removed is gone, and the other IDs keep their connections.
pub proof fn law_removed_connection_gone(
    before: Map<Seq<char>, MCPConnection>,
    after: Map<Seq<char>, MCPConnection>,
    id: Seq<char>,
    other: Seq<char>,
)
    requires
        after == before.remove(id),
    ensures
        !after.contains_key(id),
        other != id ==> (after.contains_key(other) == before.contains_key(other)),
        other != id && before.contains_key(other) ==> after[other] == before[other],
{
}

/// Removing a connection just added under a new ID gives back the
/// connections as they were.
pub proof fn law_add_then_remove(m: Map<Seq<char>, MCPConnection>, c: MCPConnection)
    requires
        !m.contains_key(c.connection_id@),
    ensures
        m.insert(c.connection_id@, c).remove(c.connection_id@) == m,
{
    assert(m.insert(c.connection_id@, c).remove(c.connection_id@) =~= m);
}

/// The open MCP connections, at most one per ID.
pub struct McpConnections {
    pub connections: Vec<MCPConnection>,
}

impl View for McpConnections {
    type V = Map<Seq<char>, MCPConnection>;

    open spec fn view(&self) -> Map<Seq<char>, MCPConnection> {
        connections_map(self.connections@)
    }
}

impl McpConnections {
    /// No two connections share an ID.
    pub open spec fn wf(&self) -> bool {
        distinct_ids(self.connections@)
    }

    /// The position of the connection with ID `id`, if there is one.
    fn find(&self, id: &str) -> (r: Option<usize>)
        requires
            self.wf(),
        ensures
            match r {
                Some(i) => i < self.connections@.len() && self.connections@[i as int].connection_id@ == id@,
                None => !self@.contains_key(id@),
            },
    {
        let mut i: usize = 0;
        while i < self.connections.len()
            invariant
                i <= self.connections@.len(),
                forall|j: int| 0 <= j < i ==> (#[trigger] self.connections@[j]).connection_id@ != id@,
            decreases self.connections.len() - i,
        {
            if str_equal(self.connections[i].connection_id.as_str(), id) {
                return Some(i);
            }
            i = i + 1;
        }
        proof {
            lemma_map_domain(self.connections@, id@);
        }
        None
    }

    /// No connections.
    pub fn new() -> (r: Self)
        ensures
            r.wf(),
            r@ == Map::<Seq<char>, MCPConnection>::empty(),
    {
        McpConnections { connections: Vec::new() }
    }

    /// No connections, with room reserved for `max_connections`.
    pub fn new_with_max_connections(max_connections: usize) -> (r: Self)
        ensures
            r.wf(),
            r@ == Map::<Seq<char>, MCPConnection>::empty(),
    {
        McpConnections { connections: Vec::with_capacity(max_connections) }
    }

    /// Adds a connection, replacing any with the same ID.
    pub fn add_connection(&mut self, connection: MCPConnection)
        requires
            old(self).wf(),
        ensures
            final(self).wf(),
            final(self)@ == old(self)@.insert(connection.connection_id@, connection),
    {
        match self.find(connection.connection_id.as_str()) {
            Some(i) => {
                proof {
                    lemma_map_update(self.connections@, i as int, connection);
                }
                self.connections.set(i, connection);
            },
            None => {
                let ghost k = connection.connection_id@;
                proof {
                    lemma_map_domain(self.connections@, k);
                }
                self.connections.push(connection);
                assert(self.connections@.drop_last() =~= old(self).connections@);
                assert forall|a: int, b: int|
                    0 <= a < b < self.connections@.len() implies (#[trigger] self.connections@[a]).connection_id@
                    != (#[trigger] self.connections@[b]).connection_id@ by {
                    if b == self.connections@.len() - 1 {
                        assert(old(self).connections@[a] == self.connections@[a]);
                    } else {
                        assert(old(self).connections@[a] == self.connections@[a]);
                        assert(old(self).connections@[b] == self.connections@[b]);
                    }
                }
            },
        }
    }

    /// Removes and returns the connection with ID `connection_id`.
    pub fn remove_connection(&mut self, connection_id: &str) -> (r: Option<MCPConnection>)
        requires
            old(self).wf(),
        ensures
            final(self).wf(),
            final(self)@ == old(self)@.remove(connection_id@),
            r == (if old(self)@.contains_key(connection_id@) {
                Some(old(self)@[connection_id@])
            } else {
                None::<MCPConnection>
            }),
    {
        match self.find(connection_id) {
            Some(i) => {
                proof {
                    lemma_map_remove(self.connections@, i as int);
                    lemma_map_at(self.connections@, i as int);
                }
                let c = self.connections.remove(i);
                Some(c)
            },
            None => {
                assert(old(self)@.remove(connection_id@) =~= old(self)@);
                None
            },
        }
    }

    /// The connection with ID `connection_id`.
    pub fn get_connection(&self, connection_id: &str) -> (r: Option<&MCPConnection>)
        requires
            self.wf(),
        ensures
            r == (if self@.contains_key(connection_id@) {
                Some(&self@[connection_id@])
            } else {
                None::<&MCPConnection>
            }),
    {
        match self.find(connection_id) {
            Some(i) => {
                proof {
                    lemma_map_at(self.connections@, i as int);
                }
                Some(&self.connections[i])
            },
            None => None,
        }
    }

    /// The connection with ID `connection_id`, to change in place.
    pub fn get_connection_mut(&mut self, connection_id: &str) -> (r: Option<&mut MCPConnection>)
        requires
            old(self).wf(),
        ensures
            match r {
                Some(c) => {
                    &&& old(self)@.contains_key(connection_id@)
                    &&& *c == old(self)@[connection_id@]
                    &&& final(c).connection_id@ == connection_id@ ==> {
                        &&& final(self).wf()
                        &&& final(self)@ == old(self)@.insert(connection_id@, *final(c))
                    }
                },
                None => {
                    &&& !old(self)@.contains_key(connection_id@)
                    &&& *final(self) == *old(self)
                },
            },
    {
        match self.find(connection_id) {
            Some(i) => {
                proof {
                    lemma_map_at(self.connections@, i as int);
                }
                let ghost s0 = self.connections@;
                let c = &mut self.connections[i];
                proof {
                    lemma_map_update_any(s0, i as int);
                }
                Some(c)
            },
            None => None,
        }
    }

    /// Removes and returns the connection with ID `connection_id`.
    pub fn get_connection_owned(&mut self, connection_id: &str) -> (r: Option<MCPConnection>)
        requires
            old(self).wf(),
        ensures
            final(self).wf(),
            final(self)@ == old(self)@.remove(connection_id@),
            r == (if old(self)@.contains_key(connection_id@) {
                Some(old(self)@[connection_id@])
            } else {
                None::<MCPConnection>
            }),
    {
        self.remove_connection(connection_id)
    }

    /// Opens a connection under a fresh time-ordered UUID, with nothing to
    /// read yet, and returns its ID.
    pub fn init_connection(&mut self) -> (id: String)
        requires
            old(self).wf(),
        ensures
            final(self).wf(),
            exists|v: u128| v6_with_node(v) && id@ == uuid_hyphenated(v),
            final(self)@.contains_key(id@),
            final(self)@[id@].connection_id@ == id@,
            final(self)@[id@].remaining().len() == 0,
            final(self)@ == old(self)@.insert(id@, final(self)@[id@]),
    {
        let v = uuid_now_v6();
        let id = uuid_to_string(v);
        let conn = MCPConnection::new(id.clone(), Vec::new());
        self.add_connection(conn);
        id
    }

    /// Reads the next item of a connection: `None` when there is no
    /// connection with that ID, the empty item when it has nothing left.
    pub fn next_of(&mut self, connection_id: &str) -> (r: Option<TraversalValue>)
        requires
            old(self).wf(),
        ensures
            final(self).wf(),
            match r {
                None => !old(self)@.contains_key(connection_id@) && final(self)@ == old(self)@,
                Some(item) => {
                    let before = old(self)@[connection_id@];
                    &&& old(self)@.contains_key(connection_id@)
                    &&& final(self)@.dom() == old(self)@.dom()
                    &&& final(self)@ == old(self)@.insert(connection_id@, final(self)@[connection_id@])
                    &&& final(self)@[connection_id@].connection_id@ == connection_id@
                    &&& if before.remaining().len() > 0 {
                        &&& item == before.remaining()[0]
                        &&& final(self)@[connection_id@].remaining() == before.remaining().drop_first()
                    } else {
                        &&& item is Empty
                        &&& final(self)@[connection_id@].remaining().len() == 0
                    }
                },
            },
    {
        proof {
            lemma_map_keys(self.connections@, connection_id@);
        }
        match self.get_connection_mut(connection_id) {
            Some(conn) => {
                let v = conn.next_item();
                let item = match v {
                    Some(x) => x,
                    None => TraversalValue::Empty,
                };
                Some(item)
            },
            None => None,
        }
    }

    /// Takes the items of a connection from `range.start` to before
    /// `range.end` (0 to 100 without a range) of those not read yet; the
    /// connection stays open with nothing left to read. `None` when there is
    /// no connection with that ID.
    pub fn collect_of(&mut self, connection_id: &str, range: Option<Range>) -> (r: Option<Vec<TraversalValue>>)
        requires
            old(self).wf(),
            match range {
                Some(rg) => rg.start <= rg.end,
                None => true,
            },
        ensures
            final(self).wf(),
            match r {
                None => !old(self)@.contains_key(connection_id@) && final(self)@ == old(self)@,
                Some(items) => {
                    let (start, end) = match range {
                        Some(rg) => (rg.start as int, rg.end as int),
                        None => (0int, 100int),
                    };
                    &&& old(self)@.contains_key(connection_id@)
                    &&& items@ == range_of(old(self)@[connection_id@].remaining(), start, end)
                    &&& final(self)@ == old(self)@.insert(connection_id@, final(self)@[connection_id@])
                    &&& final(self)@[connection_id@].connection_id@ == connection_id@
                    &&& final(self)@[connection_id@].remaining().len() == 0
                },
            },
    {
        let (start, end) = match range {
            Some(rg) => (rg.start, rg.end),
            None => (0usize, 100usize),
        };
        match self.get_connection_owned(connection_id) {
            Some(mut conn) => {
                proof {
                    lemma_map_keys(old(self).connections@, connection_id@);
                }
                let items = conn.take_range(start, end);
                let fresh = MCPConnection::new(conn.connection_id, Vec::new());
                let ghost fresh_v = fresh;
                let ghost mid = self@;
                self.add_connection(fresh);
                assert(self@ =~= old(self)@.insert(connection_id@, fresh_v));
                Some(items)
            },
            None => {
                assert(old(self)@.remove(connection_id@) =~= old(self)@);
                None
            },
        }
    }
}

/// A range of items to collect, from `start` to before `end`.
pub struct Range {
    pub start: usize,
    pub end: usize,
}

/// A tool call of an MCP client on one of its connections.
pub struct ToolCallRequest {
    pub connection_id: String,
    pub tool: ToolArgs,
}

/// A request for a resource on a connection.
pub struct ResourceCallRequest {
    pub connection_id: String,
}

/// A request to open a connection.
pub struct InitRequest {
    pub connection_addr: String,
    pub connection_port: u16,
}

/// A request for the next item of a connection.
pub struct NextRequest {
    pub connection_id: String,
}

/// A request for a range of the items of a connection.
pub struct CollectRequest {
    pub connection_id: String,
    pub range: Option<Range>,
}

} // verus!
