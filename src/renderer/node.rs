use crate::math::side::{all_sides, opposite, side_index, spec_is_straight, Side};
use crate::renderer::style::node::NodeStyle;
use crate::renderer::style::wall::WallStyle;
use crate::tilemap::border::{wall_style_of, WallId};
use crate::tilemap::tilemap2d::Tilemap2d;
use crate::utils::resource::ResourceManager;
use vstd::prelude::*;

verus! {

/// Nodes are the 4 corners of each tile and the start & end point of each
/// border. How a node is rendered is determined by the 4 borders around it and
/// their wall styles.
#[derive(Debug)]
pub enum Node<'a> {
    NoNode,
    InnerNode,
    OuterNode(&'a NodeStyle),
}

impl<'a> Node<'a> {
    /// Half the footprint of the node: 0 unless it is drawn.
    pub open spec fn spec_half(&self) -> u32 {
        match self {
            Node::OuterNode(style) => style.spec_half(),
            _ => 0,
        }
    }

    pub fn calculate_half(&self) -> (r: u32)
        ensures
            r == self.spec_half(),
    {
        match self {
            Node::NoNode => 0,
            Node::InnerNode => 0,
            Node::OuterNode(style) => style.get_half(),
        }
    }
}

/// A resolved node by the id of its wall style.
#[derive(Copy, Clone, Debug, PartialEq, Eq, Structural)]
pub enum IdNode {
    /// No wall touches the node.
    No,
    /// A straight wall of a single style passes through the node.
    Inner,
    /// The node is drawn with the node style of this wall style.
    Outer(WallId),
}

/// A group of sides of a node that share a wall style.
pub type SidesOfStyle = (WallId, Vec<Side>);

/// The wall styles on the 4 sides of a node, in the order of the sides.
pub open spec fn node_walls(tilemap: &Tilemap2d, node_index: int) -> Seq<Option<WallId>> {
    Seq::new(4, |k: int| wall_style_of(tilemap.spec_border_at_node(node_index, all_sides()[k])))
}

/// The sides among the first `k` whose wall has the style, in order.
pub open spec fn sides_with(walls: Seq<Option<WallId>>, id: WallId, k: int) -> Seq<Side>
    decreases k,
{
    if k <= 0 {
        seq![]
    } else {
        sides_with(walls, id, k - 1) + if walls[k - 1] == Some(id) {
            seq![all_sides()[k - 1]]
        } else {
            seq![]
        }
    }
}

/// The sides of a node occupied by a wall style, in counter-clockwise order.
pub open spec fn occupied_sides(walls: Seq<Option<WallId>>, id: WallId) -> Seq<Side> {
    sides_with(walls, id, 4)
}

/// The number of sides of a node occupied by a wall style.
pub open spec fn occupancy(walls: Seq<Option<WallId>>, id: WallId) -> nat {
    occupied_sides(walls, id).len()
}

/// At most one wall style touches the node.
pub open spec fn single_style(walls: Seq<Option<WallId>>) -> bool {
    forall|i: int, j: int|
        0 <= i < 4 && 0 <= j < 4 && walls[i] is Some && walls[j] is Some ==> walls[i] == walls[j]
}

/// The wall style touches the node, and no other style occupies more sides or
/// as many sides with a smaller id.
pub open spec fn dominates(walls: Seq<Option<WallId>>, id: WallId) -> bool {
    &&& occupancy(walls, id) > 0
    &&& forall|i: int|
        0 <= i < 4 && #[trigger] walls[i] is Some ==> {
            let other = walls[i]->Some_0;
            ||| occupancy(walls, other) < occupancy(walls, id)
            ||| (occupancy(walls, other) == occupancy(walls, id) && id <= other)
        }
}

/// How a node with these wall styles on its sides is drawn: not at all
/// without walls; as part of a straight wall when a single style occupies
/// exactly 2 opposite sides; else with the dominant style.
pub open spec fn resolve(walls: Seq<Option<WallId>>) -> IdNode {
    if exists|id: WallId| dominates(walls, id) {
        let id = choose|id: WallId| dominates(walls, id);
        let sides = occupied_sides(walls, id);
        if single_style(walls) && sides.len() == 2 && spec_is_straight(sides[0], sides[1]) {
            IdNode::Inner
        } else {
            IdNode::Outer(id)
        }
    } else {
        IdNode::No
    }
}

/// How the node of a tilemap is drawn.
pub open spec fn resolve_node(tilemap: &Tilemap2d, node_index: int) -> IdNode {
    resolve(node_walls(tilemap, node_index))
}

/// The groups of sides per wall style, with the sides as a sequence.
pub open spec fn groups_view(groups: Seq<SidesOfStyle>) -> Seq<(WallId, Seq<Side>)> {
    groups.map_values(|g: SidesOfStyle| (g.0, g.1@))
}

/// The groups of the sides of a node per wall style: one group for each style
/// that touches the node, with the sides it occupies, ordered by the first
/// side of each group.
pub open spec fn groups_of(walls: Seq<Option<WallId>>, groups: Seq<(WallId, Seq<Side>)>) -> bool {
    &&& forall|a: int, b: int|
        0 <= a < b < groups.len() ==> groups[a].0 != groups[b].0
    &&& forall|j: int|
        0 <= j < groups.len() ==> #[trigger] groups[j].1 == occupied_sides(walls, groups[j].0)
    &&& forall|j: int| 0 <= j < groups.len() ==> #[trigger] groups[j].1.len() > 0
    &&& forall|i: int|
        0 <= i < 4 && #[trigger] walls[i] is Some ==> exists|j: int|
            0 <= j < groups.len() && groups[j].0 == walls[i]->Some_0
    &&& forall|a: int, b: int|
        0 <= a < b < groups.len() ==> side_index(groups[a].1[0]) < side_index(groups[b].1[0])
}

/// The largest number of sides in a group.
pub open spec fn max_count(groups: Seq<(WallId, Seq<Side>)>) -> nat
    decreases groups.len(),
{
    if groups.len() == 0 {
        0
    } else {
        let rest = max_count(groups.drop_last());
        let last = groups.last().1.len();
        if last > rest {
            last
        } else {
            rest
        }
    }
}

/// The groups with `count` sides, in order.
pub open spec fn with_count(groups: Seq<(WallId, Seq<Side>)>, count: nat) -> Seq<
    (WallId, Seq<Side>),
>
    decreases groups.len(),
{
    if groups.len() == 0 {
        seq![]
    } else {
        let rest = with_count(groups.drop_last(), count);
        if groups.last().1.len() == count {
            rest.push(groups.last())
        } else {
            rest
        }
    }
}

/// The non-empty groups with the most sides, in order.
pub open spec fn top_styles(groups: Seq<(WallId, Seq<Side>)>) -> Seq<(WallId, Seq<Side>)> {
    if max_count(groups) == 0 {
        seq![]
    } else {
        with_count(groups, max_count(groups))
    }
}

/// Calculates the dominant wall style at each node, row by row.
pub fn calculate_dominant_wall_styles(tilemap: &Tilemap2d) -> (r: Vec<IdNode>)
    requires
        tilemap.wf(),
    ensures
        r@.len() == tilemap.node_count(),
        forall|n: int| 0 <= n < r@.len() ==> r@[n] == resolve_node(tilemap, n),
{
    let size = tilemap.get_size();
    proof {
        tilemap.lemma_wf_bounds();
    }
    let count = (size.width() as usize + 1) * (size.height() as usize + 1);
    let mut node_styles: Vec<IdNode> = Vec::with_capacity(count);
    let mut index: usize = 0;
    while index < count
        invariant
            tilemap.wf(),
            count == tilemap.node_count(),
            index <= count,
            node_styles@.len() == index,
            forall|n: int| 0 <= n < index ==> node_styles@[n] == resolve_node(tilemap, n),
        decreases count - index,
    {
        node_styles.push(calculate_dominant_wall_style(tilemap, index));
        index = index + 1;
    }
    node_styles
}

/// Calculates the dominant wall style at the node.
pub fn calculate_dominant_wall_style(tilemap: &Tilemap2d, index: usize) -> (r: IdNode)
    requires
        tilemap.wf(),
        index < tilemap.node_count(),
    ensures
        r == resolve_node(tilemap, index as int),
{
    let ghost walls = node_walls(tilemap, index as int);
    let sides_per_style = calculate_sides_per_style(tilemap, index);
    let ghost groups = groups_view(sides_per_style@);
    let is_intersection = sides_per_style.len() > 1;
    let top = get_top_styles(sides_per_style);
    proof {
        lemma_top_styles(walls, groups);
    }
    if top.len() == 1 {
        proof {
            assert(groups_view(top@)[0] == top_styles(groups)[0]);
        }
        let r = handle_one_style(&top[0], is_intersection);
        proof {
            let w = top@[0].0;
            lemma_top_dominates(walls, groups, 0);
            lemma_dominates_unique(walls, w);
            lemma_single_style_groups(walls, groups);
        }
        r
    } else if top.len() > 1 {
        let w = min_style(&top);
        proof {
            let j = choose|j: int| 0 <= j < top@.len() && top@[j].0 == w;
            assert forall|a: int| 0 <= a < top_styles(groups).len() implies w <= #[trigger] top_styles(groups)[a].0 by {
                assert(groups_view(top@)[a] == top_styles(groups)[a]);
            }
            assert(groups_view(top@)[j] == top_styles(groups)[j]);
            lemma_top_dominates(walls, groups, j);
            lemma_dominates_unique(walls, w);
            lemma_single_style_groups(walls, groups);
            lemma_with_count_len(groups, max_count(groups));
        }
        IdNode::Outer(w)
    } else {
        proof {
            if exists|id: WallId| dominates(walls, id) {
                let id = choose|id: WallId| dominates(walls, id);
                lemma_sides_with_present(walls, id, 4);
            }
        }
        IdNode::No
    }
}

/// The smallest style id among the groups.
fn min_style(top_styles: &Vec<SidesOfStyle>) -> (r: WallId)
    requires
        top_styles@.len() > 0,
    ensures
        exists|j: int| 0 <= j < top_styles@.len() && top_styles@[j].0 == r,
        forall|j: int| 0 <= j < top_styles@.len() ==> r <= top_styles@[j].0,
{
    let mut m = top_styles[0].0;
    let mut i: usize = 1;
    while i < top_styles.len()
        invariant
            1 <= i <= top_styles@.len(),
            exists|j: int| 0 <= j < i && top_styles@[j].0 == m,
            forall|j: int| 0 <= j < i ==> m <= top_styles@[j].0,
        decreases top_styles@.len() - i,
    {
        if top_styles[i].0 < m {
            m = top_styles[i].0;
        }
        i = i + 1;
    }
    m
}

fn handle_one_style(top_style: &SidesOfStyle, is_intersection: bool) -> (r: IdNode)
    requires
        top_style.1@.len() > 0,
    ensures
        r == if is_inner(top_style.1@, is_intersection) {
            IdNode::Inner
        } else {
            IdNode::Outer(top_style.0)
        },
{
    if is_inner_node(top_style, is_intersection) {
        return IdNode::Inner;
    }
    IdNode::Outer(top_style.0)
}

/// A single style occupies exactly 2 opposite sides.
pub open spec fn is_inner(sides: Seq<Side>, is_intersection: bool) -> bool {
    !is_intersection && sides.len() == 2 && spec_is_straight(sides[0], sides[1])
}

fn is_inner_node(top_style: &SidesOfStyle, is_intersection: bool) -> (r: bool)
    ensures
        r == is_inner(top_style.1@, is_intersection),
{
    !is_intersection && top_style.1.len() == 2 && is_straight(top_style)
}

/// Does the wall style form a straight line at a node?
fn is_straight(style: &SidesOfStyle) -> (r: bool)
    requires
        style.1@.len() >= 2,
    ensures
        r == spec_is_straight(style.1@[0], style.1@[1]),
{
    let side0 = style.1[0];
    let side1 = style.1[1];
    side0.is_straight(side1)
}

/// Calculates the groups of sides with the highest count: the non-empty groups
/// with the most sides, in order.
pub fn get_top_styles(input: Vec<SidesOfStyle>) -> (r: Vec<SidesOfStyle>)
    ensures
        groups_view(r@) == top_styles(groups_view(input@)),
{
    let ghost all = groups_view(input@);
    let mut input = input;
    let mut max_count_so_far: usize = 0;
    let mut top: Vec<SidesOfStyle> = Vec::new();
    let mut i: usize = 0;
    let n = input.len();
    while input.len() > 0
        invariant
            n == all.len(),
            i + input@.len() == n,
            groups_view(input@) == all.subrange(i as int, n as int),
            max_count_so_far == max_count(all.subrange(0, i as int)),
            groups_view(top@) == top_styles(all.subrange(0, i as int)),
        decreases input@.len(),
    {
        let ghost input_before = groups_view(input@);
        let ghost top_before = groups_view(top@);
        let entry = input.remove(0);
        let count = entry.1.len();
        proof {
            let prefix = all.subrange(0, i as int);
            let next = all.subrange(0, i + 1);
            assert(all[i as int] == (entry.0, entry.1@)) by {
                assert(input_before[0] == all.subrange(i as int, n as int)[0]);
            }
            assert(next.drop_last() =~= prefix);
            assert(next.last() == (entry.0, entry.1@));
            assert(groups_view(input@) =~= all.subrange(i + 1, n as int)) by {
                assert(groups_view(input@) =~= input_before.subrange(1, input_before.len() as int));
            }
        }
        if count > max_count_so_far {
            proof {
                let prefix = all.subrange(0, i as int);
                lemma_with_count_above_max(prefix, count as nat);
            }
            max_count_so_far = count;
            top.clear();
            top.push(entry);
            proof {
                assert(groups_view(top@) =~= seq![(entry.0, entry.1@)]);
            }
        } else if count > 0 && count == max_count_so_far {
            top.push(entry);
            proof {
                assert(groups_view(top@) =~= top_before.push((entry.0, entry.1@)));
            }
        }
        i = i + 1;
    }
    proof {
        assert(all.subrange(0, n as int) =~= all);
    }
    top
}

/// Calculates how many sides each wall style has at a node.
pub fn calculate_sides_per_style(tilemap: &Tilemap2d, node_index: usize) -> (r: Vec<
    SidesOfStyle,
>)
    requires
        tilemap.wf(),
        node_index < tilemap.node_count(),
    ensures
        groups_of(node_walls(tilemap, node_index as int), groups_view(r@)),
{
    let ghost walls = node_walls(tilemap, node_index as int);
    let sides = Side::iterator();
    let mut wall_styles: Vec<SidesOfStyle> = Vec::new();
    let mut k: usize = 0;
    while k < 4
        invariant
            tilemap.wf(),
            node_index < tilemap.node_count(),
            walls == node_walls(tilemap, node_index as int),
            sides@ == all_sides(),
            k <= 4,
            groups_so_far(walls, groups_view(wall_styles@), k as int),
        decreases 4 - k,
    {
        let side = sides[k];
        let wall_style = tilemap.get_border_at_node(node_index, side).get_wall_style();
        let ghost before = groups_view(wall_styles@);
        if let Some(id) = wall_style {
            assert(walls[k as int] == Some(id));
            let mut j: usize = 0;
            let mut found = false;
            while j < wall_styles.len() && !found
                invariant
                    j <= wall_styles@.len(),
                    found ==> j < wall_styles@.len() && wall_styles@[j as int].0 == id,
                    !found ==> forall|a: int| 0 <= a < j ==> wall_styles@[a].0 != id,
                decreases wall_styles@.len() - j + if found {
                    0int
                } else {
                    1int
                },
            {
                if wall_styles[j].0 == id {
                    found = true;
                } else {
                    j = j + 1;
                }
            }
            if found {
                let (key, mut group) = wall_styles.remove(j);
                group.push(side);
                wall_styles.insert(j, (key, group));
                proof {
                    lemma_add_to_group(walls, before, k as int, j as int);
                    assert(groups_view(wall_styles@) =~= before.update(
                        j as int,
                        (id, before[j as int].1.push(all_sides()[k as int])),
                    ));
                }
            } else {
                let mut group: Vec<Side> = Vec::new();
                group.push(side);
                wall_styles.push((id, group));
                proof {
                    lemma_new_group(walls, before, k as int, id);
                    assert(groups_view(wall_styles@) =~= before.push(
                        (id, seq![all_sides()[k as int]]),
                    ));
                }
            }
        } else {
            proof {
                lemma_no_wall(walls, before, k as int);
            }
        }
        k = k + 1;
    }
    proof {
        lemma_groups_done(walls, groups_view(wall_styles@));
    }
    wall_styles
}

/// The groups of the sides among the first `k`.
spec fn groups_so_far(walls: Seq<Option<WallId>>, groups: Seq<(WallId, Seq<Side>)>, k: int) -> bool {
    &&& forall|a: int, b: int|
        0 <= a < b < groups.len() ==> groups[a].0 != groups[b].0
    &&& forall|j: int|
        0 <= j < groups.len() ==> #[trigger] groups[j].1 == sides_with(walls, groups[j].0, k)
    &&& forall|j: int| 0 <= j < groups.len() ==> #[trigger] groups[j].1.len() > 0
    &&& forall|i: int|
        0 <= i < k && #[trigger] walls[i] is Some ==> exists|j: int|
            0 <= j < groups.len() && groups[j].0 == walls[i]->Some_0
    &&& forall|a: int, b: int|
        0 <= a < b < groups.len() ==> side_index(groups[a].1[0]) < side_index(groups[b].1[0])
    &&& forall|j: int| 0 <= j < groups.len() ==> side_index(#[trigger] groups[j].1[0]) < k
}

proof fn lemma_sides_with_step(walls: Seq<Option<WallId>>, id: WallId, k: int)
    requires
        0 <= k,
    ensures
        sides_with(walls, id, k + 1) == sides_with(walls, id, k) + if walls[k] == Some(id) {
            seq![all_sides()[k]]
        } else {
            seq![]
        },
{
}

/// A style occupies one of the first `k` sides exactly when its sides among them
/// are not empty; the first of them is the first side it occupies.
proof fn lemma_sides_with_present(walls: Seq<Option<WallId>>, id: WallId, k: int)
    requires
        0 <= k <= 4,
    ensures
        sides_with(walls, id, k).len() > 0 <==> exists|i: int|
            0 <= i < k && walls[i] == Some(id),
        sides_with(walls, id, k).len() <= k,
        forall|i: int|
            0 <= i < sides_with(walls, id, k).len() ==> side_index(
                #[trigger] sides_with(walls, id, k)[i],
            ) < k,
        sides_with(walls, id, k).len() > 0 ==> forall|i: int|
            0 <= i < k && walls[i] == Some(id) ==> side_index(sides_with(walls, id, k)[0]) <= i,
    decreases k,
{
    if k > 0 {
        lemma_sides_with_present(walls, id, k - 1);
        let prev = sides_with(walls, id, k - 1);
        let cur = sides_with(walls, id, k);
        if walls[k - 1] == Some(id) {
            assert(cur == prev + seq![all_sides()[k - 1]]);
            assert(cur[prev.len() as int] == all_sides()[k - 1]);
            assert(side_index(all_sides()[k - 1]) == k - 1);
        } else {
            assert(cur =~= prev);
        }
        assert forall|i: int| 0 <= i < cur.len() implies side_index(#[trigger] cur[i]) < k by {
            if i < prev.len() {
                assert(cur[i] == prev[i]);
            }
        }
        if cur.len() > 0 && prev.len() > 0 {
            assert(cur[0] == prev[0]);
        }
    }
}

proof fn lemma_add_to_group(
    walls: Seq<Option<WallId>>,
    before: Seq<(WallId, Seq<Side>)>,
    k: int,
    j: int,
)
    requires
        0 <= k < 4,
        0 <= j < before.len(),
        groups_so_far(walls, before, k),
        walls[k] == Some(before[j].0),
    ensures
        groups_so_far(
            walls,
            before.update(j, (before[j].0, before[j].1.push(all_sides()[k]))),
            k + 1,
        ),
{
    let after = before.update(j, (before[j].0, before[j].1.push(all_sides()[k])));
    assert forall|g: int| 0 <= g < after.len() implies #[trigger] after[g].1 == sides_with(
        walls,
        after[g].0,
        k + 1,
    ) by {
        lemma_sides_with_step(walls, after[g].0, k);
        if g == j {
            assert(after[g].1 =~= before[j].1 + seq![all_sides()[k]]);
        } else {
            assert(walls[k] != Some(before[g].0));
            assert(sides_with(walls, after[g].0, k + 1) =~= sides_with(walls, after[g].0, k));
        }
    }
    assert forall|g: int| 0 <= g < after.len() implies side_index(#[trigger] after[g].1[0])
        < k + 1 by {
        if g == j {
            assert(after[g].1[0] == before[j].1[0]);
        }
    }
    assert forall|a: int, b: int| 0 <= a < b < after.len() implies side_index(after[a].1[0])
        < side_index(after[b].1[0]) by {
        assert(after[a].1[0] == before[a].1[0]);
        assert(after[b].1[0] == before[b].1[0]);
    }
    assert forall|i: int| 0 <= i < k + 1 && #[trigger] walls[i] is Some implies exists|g: int|
        0 <= g < after.len() && after[g].0 == walls[i]->Some_0 by {
        if i == k {
            assert(after[j].0 == walls[i]->Some_0);
        } else {
            let g = choose|g: int| 0 <= g < before.len() && before[g].0 == walls[i]->Some_0;
            assert(after[g].0 == walls[i]->Some_0);
        }
    }
}

proof fn lemma_new_group(
    walls: Seq<Option<WallId>>,
    before: Seq<(WallId, Seq<Side>)>,
    k: int,
    id: WallId,
)
    requires
        0 <= k < 4,
        groups_so_far(walls, before, k),
        walls[k] == Some(id),
        forall|a: int| 0 <= a < before.len() ==> before[a].0 != id,
    ensures
        groups_so_far(walls, before.push((id, seq![all_sides()[k]])), k + 1),
{
    let after = before.push((id, seq![all_sides()[k]]));
    lemma_sides_with_present(walls, id, k);
    assert(sides_with(walls, id, k).len() == 0) by {
        if sides_with(walls, id, k).len() > 0 {
            let i = choose|i: int| 0 <= i < k && walls[i] == Some(id);
            assert(walls[i] is Some);
        }
    }
    assert forall|g: int| 0 <= g < after.len() implies #[trigger] after[g].1 == sides_with(
        walls,
        after[g].0,
        k + 1,
    ) by {
        lemma_sides_with_step(walls, after[g].0, k);
        if g == before.len() {
            assert(after[g].1 =~= sides_with(walls, id, k) + seq![all_sides()[k]]);
        } else {
            assert(after[g] == before[g]);
            assert(sides_with(walls, after[g].0, k + 1) =~= sides_with(walls, after[g].0, k));
        }
    }
    assert(side_index(all_sides()[k]) == k);
    assert forall|a: int, b: int| 0 <= a < b < after.len() implies side_index(after[a].1[0])
        < side_index(after[b].1[0]) by {
        assert(after[a] == before[a]);
        if b < before.len() {
            assert(after[b] == before[b]);
        }
    }
    assert forall|g: int| 0 <= g < after.len() implies side_index(#[trigger] after[g].1[0])
        < k + 1 by {
        if g < before.len() {
            assert(after[g] == before[g]);
        }
    }
    assert forall|i: int| 0 <= i < k + 1 && #[trigger] walls[i] is Some implies exists|g: int|
        0 <= g < after.len() && after[g].0 == walls[i]->Some_0 by {
        if i == k {
            assert(after[before.len() as int].0 == walls[i]->Some_0);
        } else {
            let g = choose|g: int| 0 <= g < before.len() && before[g].0 == walls[i]->Some_0;
            assert(after[g] == before[g]);
        }
    }
}

proof fn lemma_no_wall(walls: Seq<Option<WallId>>, groups: Seq<(WallId, Seq<Side>)>, k: int)
    requires
        0 <= k < 4,
        groups_so_far(walls, groups, k),
        walls[k] is None,
    ensures
        groups_so_far(walls, groups, k + 1),
{
    assert forall|g: int| 0 <= g < groups.len() implies #[trigger] groups[g].1 == sides_with(
        walls,
        groups[g].0,
        k + 1,
    ) by {
        lemma_sides_with_step(walls, groups[g].0, k);
        assert(sides_with(walls, groups[g].0, k + 1) =~= sides_with(walls, groups[g].0, k));
    }
}

proof fn lemma_groups_done(walls: Seq<Option<WallId>>, groups: Seq<(WallId, Seq<Side>)>)
    requires
        groups_so_far(walls, groups, 4),
    ensures
        groups_of(walls, groups),
{
}

/// Each group has at most the most sides, and some group has them.
proof fn lemma_max_count(groups: Seq<(WallId, Seq<Side>)>)
    ensures
        forall|j: int| 0 <= j < groups.len() ==> #[trigger] groups[j].1.len() <= max_count(groups),
        groups.len() > 0 ==> exists|j: int|
            0 <= j < groups.len() && groups[j].1.len() == max_count(groups),
    decreases groups.len(),
{
    if groups.len() > 0 {
        let rest = groups.drop_last();
        lemma_max_count(rest);
        assert forall|j: int| 0 <= j < groups.len() implies #[trigger] groups[j].1.len()
            <= max_count(groups) by {
            if j < rest.len() {
                assert(groups[j] == rest[j]);
            }
        }
        if groups.last().1.len() <= max_count(rest) && rest.len() > 0 {
            let j = choose|j: int| 0 <= j < rest.len() && rest[j].1.len() == max_count(rest);
            assert(groups[j] == rest[j]);
        }
    }
}

/// No group has more sides than the most.
proof fn lemma_with_count_above_max(groups: Seq<(WallId, Seq<Side>)>, count: nat)
    requires
        count > max_count(groups),
    ensures
        with_count(groups, count) == Seq::<(WallId, Seq<Side>)>::empty(),
    decreases groups.len(),
{
    if groups.len() > 0 {
        lemma_with_count_above_max(groups.drop_last(), count);
    }
}

/// The groups with a count are the groups of the sequence with that count.
proof fn lemma_with_count_members(groups: Seq<(WallId, Seq<Side>)>, count: nat)
    ensures
        forall|j: int|
            0 <= j < with_count(groups, count).len() ==> groups.contains(
                #[trigger] with_count(groups, count)[j],
            ) && with_count(groups, count)[j].1.len() == count,
        forall|j: int|
            0 <= j < groups.len() && #[trigger] groups[j].1.len() == count ==> with_count(
                groups,
                count,
            ).contains(groups[j]),
    decreases groups.len(),
{
    if groups.len() > 0 {
        let rest = groups.drop_last();
        lemma_with_count_members(rest, count);
        let wr = with_count(rest, count);
        let w = with_count(groups, count);
        assert forall|j: int| 0 <= j < w.len() implies groups.contains(#[trigger] w[j])
            && w[j].1.len() == count by {
            if j < wr.len() {
                assert(w[j] == wr[j]);
                let a = choose|a: int| 0 <= a < rest.len() && rest[a] == wr[j];
                assert(groups[a] == rest[a]);
            } else {
                assert(groups[groups.len() - 1] == w[j]);
            }
        }
        assert forall|j: int| 0 <= j < groups.len() && #[trigger] groups[j].1.len() == count
            implies w.contains(groups[j]) by {
            if j < rest.len() {
                assert(rest[j] == groups[j]);
                assert(wr.contains(rest[j]));
                let a = choose|a: int| 0 <= a < wr.len() && wr[a] == rest[j];
                assert(w[a] == wr[a]);
            } else {
                assert(w[w.len() - 1] == groups[j]);
            }
        }
    }
}

proof fn lemma_with_count_len(groups: Seq<(WallId, Seq<Side>)>, count: nat)
    ensures
        with_count(groups, count).len() <= groups.len(),
    decreases groups.len(),
{
    if groups.len() > 0 {
        lemma_with_count_len(groups.drop_last(), count);
    }
}

/// The top styles are the groups with the most sides, which are the most
/// sides any style occupies.
proof fn lemma_top_styles(walls: Seq<Option<WallId>>, groups: Seq<(WallId, Seq<Side>)>)
    requires
        groups_of(walls, groups),
    ensures
        top_styles(groups).len() == 0 <==> forall|i: int| 0 <= i < 4 ==> walls[i] is None,
        forall|j: int|
            0 <= j < top_styles(groups).len() ==> groups.contains(#[trigger] top_styles(groups)[j])
                && top_styles(groups)[j].1.len() == max_count(groups) && top_styles(groups)[j].1.len() > 0,
        forall|j: int|
            0 <= j < top_styles(groups).len() ==> dominance_candidate(
                walls,
                #[trigger] top_styles(groups)[j].0,
                max_count(groups),
            ),
        forall|id: WallId|
            occupancy(walls, id) > 0 ==> occupancy(walls, id) <= max_count(groups) && (occupancy(
                walls,
                id,
            ) == max_count(groups) ==> exists|j: int|
                0 <= j < top_styles(groups).len() && #[trigger] top_styles(groups)[j].0 == id),
{
    lemma_max_count(groups);
    lemma_with_count_members(groups, max_count(groups));
    let top = top_styles(groups);
    let m = max_count(groups);
    assert forall|id: WallId| occupancy(walls, id) > 0 implies occupancy(walls, id) <= m && (
    occupancy(walls, id) == m ==> exists|j: int|
        0 <= j < top.len() && #[trigger] top[j].0 == id) by {
        lemma_sides_with_present(walls, id, 4);
        let i = choose|i: int| 0 <= i < 4 && walls[i] == Some(id);
        assert(walls[i] is Some);
        let g = choose|g: int| 0 <= g < groups.len() && groups[g].0 == walls[i]->Some_0;
        assert(groups[g].1 == occupied_sides(walls, groups[g].0));
        if occupancy(walls, id) == m {
            assert(groups[g].1.len() == m);
            assert(with_count(groups, m).contains(groups[g]));
            let a = choose|a: int|
                0 <= a < with_count(groups, m).len() && with_count(groups, m)[a] == groups[g];
            assert(top[a].0 == id);
        }
    }
    assert forall|j: int| 0 <= j < top.len() implies dominance_candidate(
        walls,
        #[trigger] top[j].0,
        m,
    ) by {
        let a = choose|a: int| 0 <= a < groups.len() && groups[a] == top[j];
        assert(groups[a].1 == occupied_sides(walls, groups[a].0));
    }
    assert forall|j: int| 0 <= j < top.len() implies #[trigger] top[j].1.len() > 0 by {
        let a = choose|a: int| 0 <= a < groups.len() && groups[a] == top[j];
        assert(groups[a].1.len() > 0);
    }
    if forall|i: int| 0 <= i < 4 ==> walls[i] is None {
        if groups.len() > 0 {
            assert(groups[0].1 == occupied_sides(walls, groups[0].0));
            lemma_sides_with_present(walls, groups[0].0, 4);
            let i = choose|i: int| 0 <= i < 4 && walls[i] == Some(groups[0].0);
        }
    } else {
        let i = choose|i: int| 0 <= i < 4 && !(walls[i] is None);
        let g = choose|g: int| 0 <= g < groups.len() && groups[g].0 == walls[i]->Some_0;
        assert(groups[g].1.len() > 0);
        assert(m > 0);
        let j = choose|j: int| 0 <= j < groups.len() && groups[j].1.len() == m;
        assert(with_count(groups, m).contains(groups[j]));
    }
}

/// A style that occupies `count` sides, the most that any style occupies.
spec fn dominance_candidate(walls: Seq<Option<WallId>>, id: WallId, count: nat) -> bool {
    occupancy(walls, id) == count
}

/// A top style whose id is not larger than that of any other top style
/// dominates the node.
proof fn lemma_top_dominates(walls: Seq<Option<WallId>>, groups: Seq<(WallId, Seq<Side>)>, j: int)
    requires
        groups_of(walls, groups),
        0 <= j < top_styles(groups).len(),
        forall|a: int|
            0 <= a < top_styles(groups).len() ==> top_styles(groups)[j].0 <= #[trigger] top_styles(
                groups,
            )[a].0,
    ensures
        dominates(walls, top_styles(groups)[j].0),
{
    lemma_top_styles(walls, groups);
    let top = top_styles(groups);
    let w = top[j].0;
    assert(dominance_candidate(walls, w, max_count(groups)));
    assert forall|i: int| 0 <= i < 4 && #[trigger] walls[i] is Some implies {
        let other = walls[i]->Some_0;
        ||| occupancy(walls, other) < occupancy(walls, w)
        ||| (occupancy(walls, other) == occupancy(walls, w) && w <= other)
    } by {
        let other = walls[i]->Some_0;
        lemma_sides_with_present(walls, other, 4);
        assert(occupancy(walls, other) > 0);
        if occupancy(walls, other) == max_count(groups) {
            let a = choose|a: int| 0 <= a < top.len() && #[trigger] top[a].0 == other;
        }
    }
}

/// At most one style dominates a node.
proof fn lemma_dominates_unique(walls: Seq<Option<WallId>>, id: WallId)
    requires
        dominates(walls, id),
    ensures
        resolve(walls) == if single_style(walls) && occupancy(walls, id) == 2 && spec_is_straight(
            occupied_sides(walls, id)[0],
            occupied_sides(walls, id)[1],
        ) {
            IdNode::Inner
        } else {
            IdNode::Outer(id)
        },
{
    let other = choose|other: WallId| dominates(walls, other);
    lemma_sides_with_present(walls, id, 4);
    lemma_sides_with_present(walls, other, 4);
    let i = choose|i: int| 0 <= i < 4 && walls[i] == Some(id);
    let j = choose|j: int| 0 <= j < 4 && walls[j] == Some(other);
    assert(walls[i] is Some);
    assert(walls[j] is Some);
}

/// A node has at most one group exactly when a single style touches it.
proof fn lemma_single_style_groups(walls: Seq<Option<WallId>>, groups: Seq<(WallId, Seq<Side>)>)
    requires
        groups_of(walls, groups),
    ensures
        single_style(walls) <==> groups.len() <= 1,
{
    if single_style(walls) && groups.len() > 1 {
        assert(groups[0].1 == occupied_sides(walls, groups[0].0));
        assert(groups[1].1 == occupied_sides(walls, groups[1].0));
        lemma_sides_with_present(walls, groups[0].0, 4);
        lemma_sides_with_present(walls, groups[1].0, 4);
        let a = choose|a: int| 0 <= a < 4 && walls[a] == Some(groups[0].0);
        let b = choose|b: int| 0 <= b < 4 && walls[b] == Some(groups[1].0);
        assert(walls[a] is Some && walls[b] is Some);
    }
    if groups.len() <= 1 && !single_style(walls) {
        let (a, b) = choose|a: int, b: int|
            0 <= a < 4 && 0 <= b < 4 && walls[a] is Some && walls[b] is Some && walls[a]
                != walls[b];
        let ga = choose|g: int| 0 <= g < groups.len() && groups[g].0 == walls[a]->Some_0;
        let gb = choose|g: int| 0 <= g < groups.len() && groups[g].0 == walls[b]->Some_0;
    }
}

/// A node touched by a single wall style on exactly 2 opposite sides is part
/// of a straight wall and not drawn as a node of its own.
pub proof fn lemma_straight_wall_is_inner(
    tilemap: &Tilemap2d,
    node_index: int,
    id: WallId,
    side: Side,
)
    requires
        node_walls(tilemap, node_index)[side_index(side)] == Some(id),
        node_walls(tilemap, node_index)[side_index(opposite(side))] == Some(id),
        forall|k: int|
            0 <= k < 4 && k != side_index(side) && k != side_index(opposite(side))
                ==> node_walls(tilemap, node_index)[k] is None,
    ensures
        resolve_node(tilemap, node_index) == IdNode::Inner,
{
    let walls = node_walls(tilemap, node_index);
    reveal_with_fuel(sides_with, 5);
    assert(forall|k: int| 0 <= k < 4 && walls[k] is Some ==> walls[k] == Some(id));
    assert(occupancy(walls, id) == 2);
    assert(dominates(walls, id));
    lemma_dominates_unique(walls, id);
}

/// A node touched by a single wall style on exactly 2 neighbouring sides is
/// a corner, drawn with that style.
pub proof fn lemma_corner_is_outer(
    tilemap: &Tilemap2d,
    node_index: int,
    id: WallId,
    a: Side,
    b: Side,
)
    requires
        a != b,
        !spec_is_straight(a, b),
        node_walls(tilemap, node_index)[side_index(a)] == Some(id),
        node_walls(tilemap, node_index)[side_index(b)] == Some(id),
        forall|k: int|
            0 <= k < 4 && k != side_index(a) && k != side_index(b) ==> node_walls(
                tilemap,
                node_index,
            )[k] is None,
    ensures
        resolve_node(tilemap, node_index) == IdNode::Outer(id),
{
    let walls = node_walls(tilemap, node_index);
    reveal_with_fuel(sides_with, 5);
    assert(forall|k: int| 0 <= k < 4 && walls[k] is Some ==> walls[k] == Some(id));
    assert(occupancy(walls, id) == 2);
    assert(dominates(walls, id));
    lemma_dominates_unique(walls, id);
}

/// Of 2 wall styles at a node, the one that occupies more sides wins,
/// whichever of the two ids is smaller.
pub proof fn lemma_more_sides_win(tilemap: &Tilemap2d, node_index: int, x: WallId, y: WallId)
    requires
        x != y,
        forall|k: int|
            0 <= k < 4 && #[trigger] node_walls(tilemap, node_index)[k] is Some ==> node_walls(
                tilemap,
                node_index,
            )[k] == Some(x) || node_walls(tilemap, node_index)[k] == Some(y),
        occupancy(node_walls(tilemap, node_index), x) > occupancy(
            node_walls(tilemap, node_index),
            y,
        ) > 0,
    ensures
        resolve_node(tilemap, node_index) == IdNode::Outer(x),
{
    lemma_two_styles(node_walls(tilemap, node_index), x, y);
}

/// Of 2 wall styles that occupy as many sides of a node, the smaller id wins.
pub proof fn lemma_tie_smaller_id_wins(
    tilemap: &Tilemap2d,
    node_index: int,
    x: WallId,
    y: WallId,
)
    requires
        x < y,
        forall|k: int|
            0 <= k < 4 && #[trigger] node_walls(tilemap, node_index)[k] is Some ==> node_walls(
                tilemap,
                node_index,
            )[k] == Some(x) || node_walls(tilemap, node_index)[k] == Some(y),
        occupancy(node_walls(tilemap, node_index), x) == occupancy(
            node_walls(tilemap, node_index),
            y,
        ) > 0,
    ensures
        resolve_node(tilemap, node_index) == IdNode::Outer(x),
{
    lemma_two_styles(node_walls(tilemap, node_index), x, y);
}

/// Of 2 wall styles at a node, `x` wins if it occupies more sides, or as many
/// with a smaller id.
proof fn lemma_two_styles(walls: Seq<Option<WallId>>, x: WallId, y: WallId)
    requires
        x != y,
        forall|k: int|
            0 <= k < 4 && #[trigger] walls[k] is Some ==> walls[k] == Some(x) || walls[k] == Some(
                y,
            ),
        occupancy(walls, y) > 0,
        occupancy(walls, x) > occupancy(walls, y) || (occupancy(walls, x) == occupancy(walls, y)
            && x < y),
    ensures
        resolve(walls) == IdNode::Outer(x),
{
    assert(dominates(walls, x));
    lemma_dominates_unique(walls, x);
    lemma_sides_with_present(walls, x, 4);
    lemma_sides_with_present(walls, y, 4);
    let i = choose|i: int| 0 <= i < 4 && walls[i] == Some(x);
    let j = choose|j: int| 0 <= j < 4 && walls[j] == Some(y);
    assert(walls[i] is Some && walls[j] is Some);
    assert(!single_style(walls));
}

} // verus!

verus! {

/// The node is drawn as the id node says: an outer node with the node style of
/// its wall style.
pub open spec fn drawn_as(
    node: Node,
    id: IdNode,
    node_styles: ResourceManager<NodeStyle>,
    wall_styles: ResourceManager<WallStyle>,
) -> bool {
    match id {
        IdNode::No => node is NoNode,
        IdNode::Inner => node is InnerNode,
        IdNode::Outer(w) => node is OuterNode && *node->OuterNode_0 == node_styles.spec_get(
            wall_styles.spec_get(w as int).spec_node() as int,
        ),
    }
}

/// Half the footprint of the node of a tilemap, as it is drawn with the styles.
pub open spec fn node_half(
    tilemap: &Tilemap2d,
    node_styles: ResourceManager<NodeStyle>,
    wall_styles: ResourceManager<WallStyle>,
    node_index: int,
) -> u32 {
    match resolve_node(tilemap, node_index) {
        IdNode::Outer(w) => node_styles.spec_get(
            wall_styles.spec_get(w as int).spec_node() as int,
        ).spec_half(),
        _ => 0,
    }
}

/// Calculates the node at each node, row by row, with its node style.
pub fn calculate_node_styles<'a>(
    node_styles: &'a ResourceManager<NodeStyle>,
    wall_styles: &'a ResourceManager<WallStyle>,
    tilemap: &'a Tilemap2d,
) -> (r: Vec<Node<'a>>)
    requires
        tilemap.wf(),
    ensures
        r@.len() == tilemap.node_count(),
        forall|n: int|
            0 <= n < r@.len() ==> drawn_as(
                #[trigger] r@[n],
                resolve_node(tilemap, n),
                *node_styles,
                *wall_styles,
            ),
        forall|n: int|
            0 <= n < r@.len() ==> #[trigger] r@[n].spec_half() == node_half(
                tilemap,
                *node_styles,
                *wall_styles,
                n,
            ),
{
    let ids = calculate_dominant_wall_styles(tilemap);
    let mut nodes: Vec<Node<'a>> = Vec::with_capacity(ids.len());
    let mut i: usize = 0;
    while i < ids.len()
        invariant
            i <= ids@.len(),
            ids@.len() == tilemap.node_count(),
            forall|n: int| 0 <= n < ids@.len() ==> ids@[n] == resolve_node(tilemap, n),
            nodes@.len() == i,
            forall|n: int|
                0 <= n < i ==> drawn_as(
                    #[trigger] nodes@[n],
                    resolve_node(tilemap, n),
                    *node_styles,
                    *wall_styles,
                ),
            forall|n: int|
                0 <= n < i ==> #[trigger] nodes@[n].spec_half() == node_half(
                    tilemap,
                    *node_styles,
                    *wall_styles,
                    n,
                ),
        decreases ids@.len() - i,
    {
        let node = match ids[i] {
            IdNode::No => Node::NoNode,
            IdNode::Inner => Node::InnerNode,
            IdNode::Outer(wall_id) => {
                let node_id = wall_styles.get(wall_id).get_node_style();
                Node::OuterNode(node_styles.get(node_id))
            },
        };
        nodes.push(node);
        i = i + 1;
    }
    nodes
}

} // verus!
