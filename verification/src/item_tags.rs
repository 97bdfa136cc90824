//! Item tags: names of what is bought, arranged so that a tag may contain
//! others, without cycles.
use vstd::prelude::*;
use crate::alias::{all_alias_chars, Alias, Error as AliasError};
use crate::ids::ItemTagId;
use crate::sync::UniqueSaveError;

pub mod tag_graph;

verus! {

/// An item tag.
#[derive(Debug, Clone)]
pub struct ItemTag {
    pub name: ItemName,
}

/// The name of an item tag: an alias.
#[derive(Debug, Clone)]
pub struct ItemName {
    alias: Alias,
}

impl View for ItemName {
    type V = Seq<char>;

    closed spec fn view(&self) -> Seq<char> {
        self.alias@
    }
}

impl ItemName {
    /// Reads an item name, as an `Alias` is read.
    pub fn parse_str(s: &str) -> (r: Result<Self, AliasError>)
        ensures
            s@.len() == 0 <==> r == Err::<Self, AliasError>(AliasError::Empty),
            s@.len() > 0 && !all_alias_chars(s@) <==> r == Err::<Self, AliasError>(
                AliasError::Invalid,
            ),
            r matches Ok(n) ==> n@ == s@,
            (s@.len() > 0 && forall|i: int| 0 <= i < s@.len() ==> (('a' <= #[trigger] s@[i] && s@[i] <= 'z') || ('A' <= s@[i] && s@[i] <= 'Z') || ('0' <= s@[i] && s@[i] <= '9') || s@[i] == '-' || s@[i] == '_')) ==> (r matches Ok(n) && n@ == s@),
    {
        match Alias::parse_str(s) {
            Ok(alias) => Ok(ItemName { alias }),
            Err(e) => Err(e),
        }
    }

    /// The text of the name.
    pub fn to_string(&self) -> (r: String)
        ensures
            r@ == self@,
    {
        self.alias.to_string()
    }
}

impl std::str::FromStr for ItemName {
    type Err = AliasError;

    fn from_str(s: &str) -> (r: Result<Self, Self::Err>)
        ensures
            s@.len() == 0 <==> r == Err::<Self, AliasError>(AliasError::Empty),
            s@.len() > 0 && !all_alias_chars(s@) <==> r == Err::<Self, AliasError>(
                AliasError::Invalid,
            ),
            r matches Ok(n) ==> n@ == s@,
            (s@.len() > 0 && forall|i: int| 0 <= i < s@.len() ==> (('a' <= #[trigger] s@[i] && s@[i] <= 'z') || ('A' <= s@[i] && s@[i] <= 'Z') || ('0' <= s@[i] && s@[i] <= '9') || s@[i] == '-' || s@[i] == '_')) ==> (r matches Ok(n) && n@ == s@),
    {
        ItemName::parse_str(s)
    }
}

/// A tag with the names of the tags that contain it.
#[derive(Debug, Clone)]
pub struct ItemTagNode {
    pub id: ItemTagId,
    pub tag: ItemTag,
    pub parents_name: Vec<ItemName>,
}

/// Announces an item tag newly kept.
#[derive(Debug, Clone, Copy)]
pub struct ItemTagCreated {
    pub id: ItemTagId,
}

impl ItemTagCreated {
    /// The name the event is published under.
    pub fn name(&self) -> (r: &'static str)
        ensures
            r@ == "backoffice.item_tags.created"@,
    {
        "backoffice.item_tags.created"
    }

    /// The version of the event.
    pub fn version(&self) -> (r: &'static str)
        ensures
            r@ == "1.0.0"@,
    {
        "1.0.0"
    }
}

/// How a tag stands to a possible ancestor.
#[derive(Debug, Clone, Copy)]
pub enum TagsRelation {
    Ancestor,
    NotRelated,
    TargetNotFound,
}

/// The outcome of linking a parent tag to a child tag.
#[derive(Debug, Clone, Copy)]
pub enum Status {
    Linked,
    AlreadyContains,
    CyclicRelation,
    NotFound(ItemTagId),
}

/// What happened since the last step of a link.
#[derive(Debug, Clone, Copy)]
pub enum LinkEvent {
    /// The link is asked for
    Start,
    /// The store told how the parent stands to the child
    Relation(TagsRelation),
    /// The store saved the link, or found it there already
    Saved(Result<(), UniqueSaveError>),
}

/// What to do next for a link.
#[derive(Debug, Clone, Copy)]
pub enum LinkAction {
    /// Ask the store whether the child is an ancestor of the parent
    CheckRelation,
    /// Save the link
    Link,
    /// The link is done, with this outcome
    Finish(Status),
}

/// The step of a link: a tag cannot contain itself; the parent must exist
/// and must not descend from the child, or the link would close a cycle; a
/// link saved twice is reported as already there.
pub open spec fn link_step_spec(parent_id: ItemTagId, child_id: ItemTagId, event: LinkEvent) -> LinkAction {
    match event {
        LinkEvent::Start => if parent_id == child_id {
            LinkAction::Finish(Status::CyclicRelation)
        } else {
            LinkAction::CheckRelation
        },
        LinkEvent::Relation(relation) => match relation {
            TagsRelation::TargetNotFound => LinkAction::Finish(Status::NotFound(parent_id)),
            TagsRelation::Ancestor => LinkAction::Finish(Status::CyclicRelation),
            TagsRelation::NotRelated => LinkAction::Link,
        },
        LinkEvent::Saved(result) => match result {
            Ok(()) => LinkAction::Finish(Status::Linked),
            Err(UniqueSaveError::AlreadyExists) => LinkAction::Finish(Status::AlreadyContains),
        },
    }
}

/// Decides the next step of linking `child_id` under `parent_id` (see
/// `link_step_spec`).
pub fn link_step(parent_id: ItemTagId, child_id: ItemTagId, event: LinkEvent) -> (r: LinkAction)
    ensures
        r == link_step_spec(parent_id, child_id, event),
{
    match event {
        LinkEvent::Start => {
            let same = parent_id == child_id;
            proof {
                if same {
                    ItemTagId::lemma_view_eq(parent_id, child_id);
                }
            }
            if same {
                LinkAction::Finish(Status::CyclicRelation)
            } else {
                LinkAction::CheckRelation
            }
        },
        LinkEvent::Relation(relation) => match relation {
            TagsRelation::TargetNotFound => LinkAction::Finish(Status::NotFound(parent_id)),
            TagsRelation::Ancestor => LinkAction::Finish(Status::CyclicRelation),
            TagsRelation::NotRelated => LinkAction::Link,
        },
        LinkEvent::Saved(result) => match result {
            Ok(()) => LinkAction::Finish(Status::Linked),
            Err(UniqueSaveError::AlreadyExists) => LinkAction::Finish(Status::AlreadyContains),
        },
    }
}

/// A link is saved only after the store found the parent and found that
/// the child is not its ancestor, and never links a tag to itself; a link
/// found there already is reported as such, an unknown parent as not found.
pub proof fn lemma_link_steps(parent_id: ItemTagId, child_id: ItemTagId, event: LinkEvent)
    ensures
        link_step_spec(parent_id, child_id, event) == LinkAction::Link <==> event
            == LinkEvent::Relation(TagsRelation::NotRelated),
        link_step_spec(parent_id, child_id, event) == LinkAction::CheckRelation <==> (event
            == LinkEvent::Start && parent_id != child_id),
        event == LinkEvent::Start && parent_id == child_id ==> link_step_spec(parent_id, child_id, event)
            == LinkAction::Finish(Status::CyclicRelation),
        event == LinkEvent::Relation(TagsRelation::Ancestor) ==> link_step_spec(parent_id, child_id, event)
            == LinkAction::Finish(Status::CyclicRelation),
        event == LinkEvent::Relation(TagsRelation::TargetNotFound) ==> link_step_spec(parent_id, child_id, event)
            == LinkAction::Finish(Status::NotFound(parent_id)),
        event == LinkEvent::Saved(Ok(())) ==> link_step_spec(parent_id, child_id, event)
            == LinkAction::Finish(Status::Linked),
        event == LinkEvent::Saved(Err(UniqueSaveError::AlreadyExists)) ==> link_step_spec(parent_id, child_id, event)
            == LinkAction::Finish(Status::AlreadyContains),
{
}

/// What to do after reading one generation of ancestors.
#[derive(Debug, Clone)]
pub enum RelationStep {
    /// The relation is known
    Finish(TagsRelation),
    /// Read the parents of these tags next
    Continue(Vec<ItemTagId>),
}

/// `true` when `id` is listed.
pub fn contains_id(ids: &Vec<ItemTagId>, id: ItemTagId) -> (r: bool)
    ensures
        r == ids@.contains(id),
{
    let mut i: usize = 0;
    while i < ids.len()
        invariant
            0 <= i <= ids.len(),
            forall|j: int| 0 <= j < i ==> ids@[j] != id,
        decreases ids.len() - i,
    {
        let same = ids[i] == id;
        if same {
            proof {
                ItemTagId::lemma_view_eq(ids@[i as int], id);
            }
            assert(ids@[i as int] == id);
            return true;
        }
        proof {
            if ids@[i as int] == id {
                assert(ids@[i as int]@ == id@);
            }
        }
        i = i + 1;
    }
    false
}

/// The step after reading the parents of the target tag: no such tag,
/// no parents, a parent that is the possible ancestor, or go on with the
/// parents.
pub open spec fn first_relation_spec(parents: Option<Seq<ItemTagId>>, maybe_ancestor: ItemTagId) -> Option<
    TagsRelation,
> {
    match parents {
        None => Some(TagsRelation::TargetNotFound),
        Some(p) => if p.len() == 0 {
            Some(TagsRelation::NotRelated)
        } else if p.contains(maybe_ancestor) {
            Some(TagsRelation::Ancestor)
        } else {
            None
        },
    }
}

/// Decides the step after reading the parents of the target tag (see
/// `first_relation_spec`); when it goes on, the parents are the next
/// generation.
pub fn first_relation_step(parents: Option<Vec<ItemTagId>>, maybe_ancestor: ItemTagId) -> (r:
    RelationStep)
    ensures
        match first_relation_spec(
            match parents {
                Some(p) => Some(p@),
                None => None,
            },
            maybe_ancestor,
        ) {
            Some(rel) => r == RelationStep::Finish(rel),
            None => r matches RelationStep::Continue(next) && next@ == parents->Some_0@,
        },
{
    match parents {
        None => RelationStep::Finish(TagsRelation::TargetNotFound),
        Some(p) => {
            if p.len() == 0 {
                RelationStep::Finish(TagsRelation::NotRelated)
            } else if contains_id(&p, maybe_ancestor) {
                RelationStep::Finish(TagsRelation::Ancestor)
            } else {
                RelationStep::Continue(p)
            }
        },
    }
}

/// The parents of a generation, all together.
pub open spec fn flatten_ids(levels: Seq<Vec<ItemTagId>>) -> Seq<ItemTagId> {
    levels.map_values(|v: Vec<ItemTagId>| v@).flatten()
}

/// Lists the parents of a generation one after another.
pub fn flatten_generation(levels: &Vec<Vec<ItemTagId>>) -> (r: Vec<ItemTagId>)
    ensures
        r@ == flatten_ids(levels@),
{
    let mut out: Vec<ItemTagId> = Vec::new();
    let mut i: usize = 0;
    while i < levels.len()
        invariant
            0 <= i <= levels.len(),
            out@ == flatten_ids(levels@.take(i as int)),
        decreases levels.len() - i,
    {
        let level = &levels[i];
        let ghost before = out@;
        let mut j: usize = 0;
        while j < level.len()
            invariant
                0 <= j <= level.len(),
                out@ == before + level@.take(j as int),
            decreases level.len() - j,
        {
            out.push(level[j]);
            j = j + 1;
            assert(before + level@.take(j as int) =~= (before + level@.take(j - 1)).push(
                level@[j - 1],
            ));
        }
        proof {
            assert(level@.take(level.len() as int) =~= level@);
            let m = levels@.take(i as int).map_values(|v: Vec<ItemTagId>| v@);
            assert(levels@.take(i + 1).map_values(|v: Vec<ItemTagId>| v@) =~= m.push(level@));
            m.lemma_flatten_push(level@);
        }
        i = i + 1;
    }
    assert(levels@.take(levels.len() as int) =~= levels@);
    out
}

/// The step after reading the parents of a generation: none, the possible
/// ancestor among them, or go on with them.
pub open spec fn next_relation_spec(grand_parents: Seq<ItemTagId>, maybe_ancestor: ItemTagId) -> Option<
    TagsRelation,
> {
    if grand_parents.len() == 0 {
        Some(TagsRelation::NotRelated)
    } else if grand_parents.contains(maybe_ancestor) {
        Some(TagsRelation::Ancestor)
    } else {
        None
    }
}

/// Decides the step after reading the parents of a generation (see
/// `next_relation_spec`); when it goes on, those parents, all together, are
/// the next generation.
pub fn next_relation_step(levels: &Vec<Vec<ItemTagId>>, maybe_ancestor: ItemTagId) -> (r:
    RelationStep)
    ensures
        match next_relation_spec(flatten_ids(levels@), maybe_ancestor) {
            Some(rel) => r == RelationStep::Finish(rel),
            None => r matches RelationStep::Continue(next) && next@ == flatten_ids(levels@),
        },
{
    let grand_parents = flatten_generation(levels);
    if grand_parents.len() == 0 {
        RelationStep::Finish(TagsRelation::NotRelated)
    } else if contains_id(&grand_parents, maybe_ancestor) {
        RelationStep::Finish(TagsRelation::Ancestor)
    } else {
        RelationStep::Continue(grand_parents)
    }
}

} // verus!
