use vstd::prelude::*;
use crate::text::{concat_str, decimal, decimal_string, lemma_decimal_injective, lemma_no_space_in_decimal};
use crate::lemmas::lemma_filter_removes_only;
use crate::lemmas::lemma_filter_keeps_all;

verus! {

/// Shape types available in the scene editor.
#[derive(Clone, Copy, Debug, PartialEq, Eq, Structural)]
pub enum ShapeType {
    Rectangle,
    Circle,
    Triangle,
}

impl ShapeType {
    /// The display name of the shape, as a character sequence.
    pub open spec fn name_spec(self) -> Seq<char> {
        match self {
            ShapeType::Rectangle => seq!['R', 'e', 'c', 't', 'a', 'n', 'g', 'l', 'e'],
            ShapeType::Circle => seq!['C', 'i', 'r', 'c', 'l', 'e'],
            ShapeType::Triangle => seq!['T', 'r', 'i', 'a', 'n', 'g', 'l', 'e'],
        }
    }

    /// The slot of the shape in per-shape tables.
    pub open spec fn index_spec(self) -> int {
        match self {
            ShapeType::Rectangle => 0,
            ShapeType::Circle => 1,
            ShapeType::Triangle => 2,
        }
    }

    pub fn name(self) -> (r: &'static str)
        ensures
            r@ == self.name_spec(),
    {
        match self {
            ShapeType::Rectangle => {
                proof {
                    reveal_strlit("Rectangle");
                }
                "Rectangle"
            },
            ShapeType::Circle => {
                proof {
                    reveal_strlit("Circle");
                }
                "Circle"
            },
            ShapeType::Triangle => {
                proof {
                    reveal_strlit("Triangle");
                }
                "Triangle"
            },
        }
    }

    pub fn index(self) -> (r: usize)
        ensures
            r == self.index_spec(),
    {
        match self {
            ShapeType::Rectangle => 0,
            ShapeType::Circle => 1,
            ShapeType::Triangle => 2,
        }
    }
}


/// Bit pattern (single-precision IEEE-754) of one hundred: the position given to new objects.
pub const DEFAULT_POSITION_BITS: u32 = 0x42C8_0000;

/// Bit pattern (single-precision IEEE-754) of eighty: the width and height given to new objects.
pub const DEFAULT_SIZE_BITS: u32 = 0x42A0_0000;

/// Bit pattern (single-precision IEEE-754) of zero: the rotation given to new objects.
pub const DEFAULT_ROTATION_BITS: u32 = 0;

/// A single object in the 2D scene.
///
/// The transform is kept as the bit patterns of single-precision numbers;
/// the scene logic stores and copies them and never does arithmetic on them.
#[derive(Clone, Debug)]
pub struct SceneObject {
    pub id: u64,
    pub name: String,
    pub shape: ShapeType,
    /// X position (center of the shape in world space).
    pub x: u32,
    /// Y position (center of the shape in world space).
    pub y: u32,
    pub width: u32,
    pub height: u32,
    /// Rotation in degrees.
    pub rotation: u32,
}

/// A scene object with its name taken as text.
pub struct ObjectView {
    pub id: u64,
    pub name: Seq<char>,
    pub shape: ShapeType,
    pub x: u32,
    pub y: u32,
    pub width: u32,
    pub height: u32,
    pub rotation: u32,
}

impl View for SceneObject {
    type V = ObjectView;

    open spec fn view(&self) -> ObjectView {
        ObjectView {
            id: self.id,
            name: self.name@,
            shape: self.shape,
            x: self.x,
            y: self.y,
            width: self.width,
            height: self.height,
            rotation: self.rotation,
        }
    }
}

impl SceneObject {
    /// A field-by-field copy.
    pub fn duplicate(&self) -> (r: SceneObject)
        ensures
            r == *self,
    {
        SceneObject {
            id: self.id,
            name: self.name.clone(),
            shape: self.shape,
            x: self.x,
            y: self.y,
            width: self.width,
            height: self.height,
            rotation: self.rotation,
        }
    }
}

/// The name the `count`-th object of `shape` receives: "<Shape> <count>".
pub open spec fn object_name(shape: ShapeType, count: nat) -> Seq<char> {
    shape.name_spec() + seq![' '] + decimal(count)
}

/// The object `add_object` creates: identifier `id`, the `count`-th name of `shape`, and the
/// default transform.
pub open spec fn new_object(id: u64, shape: ShapeType, count: nat) -> ObjectView {
    ObjectView {
        id,
        name: object_name(shape, count),
        shape,
        x: DEFAULT_POSITION_BITS,
        y: DEFAULT_POSITION_BITS,
        width: DEFAULT_SIZE_BITS,
        height: DEFAULT_SIZE_BITS,
        rotation: DEFAULT_ROTATION_BITS,
    }
}

/// `i` is the first position in `objs` of an object with identifier `id`.
pub open spec fn is_first_with_id(objs: Seq<ObjectView>, id: u64, i: int) -> bool {
    &&& 0 <= i < objs.len()
    &&& objs[i].id == id
    &&& forall|j: int| 0 <= j < i ==> objs[j].id != id
}

/// No object in `objs` has identifier `id`.
pub open spec fn has_no_id(objs: Seq<ObjectView>, id: u64) -> bool {
    forall|j: int| 0 <= j < objs.len() ==> objs[j].id != id
}

/// The first position in `objs` of an object with identifier `id`, if any.
pub open spec fn first_with_id(objs: Seq<ObjectView>, id: u64) -> Option<int> {
    if exists|i: int| is_first_with_id(objs, id, i) {
        Some(choose|i: int| is_first_with_id(objs, id, i))
    } else {
        None
    }
}

/// Every identifier in `objs` is below `bound`, and no two objects share one.
pub open spec fn ids_valid(objs: Seq<ObjectView>, bound: nat) -> bool {
    &&& forall|j: int| 0 <= j < objs.len() ==> objs[j].id < bound
    &&& forall|j: int, k: int| 0 <= j < objs.len() && 0 <= k < objs.len() && j != k ==> objs[j].id != objs[k].id
}

/// The position of the last `true` in `hits`, if any.
pub open spec fn last_hit(hits: Seq<bool>) -> Option<int>
    decreases hits.len(),
{
    if hits.len() == 0 {
        None
    } else if hits.last() {
        Some(hits.len() - 1)
    } else {
        last_hit(hits.drop_last())
    }
}

/// What a scene holds: its objects in drawing order, the selection, the identifier the next
/// object receives, and how many objects of each shape were ever added (by `ShapeType::index_spec`).
pub struct SceneModel {
    pub objects: Seq<ObjectView>,
    pub selected_id: Option<u64>,
    pub next_id: nat,
    pub name_counters: Seq<nat>,
}

/// A call that changes a scene.
pub enum SceneOp {
    /// `add_object(shape)`.
    Add(ShapeType),
    /// `select(id)`, or `select_topmost` choosing `id`.
    Select(Option<u64>),
    /// `remove_selected()`.
    RemoveSelected,
    /// A write through `get_selected_mut()`: the selected object takes the given value.
    EditSelected(ObjectView),
}

impl SceneModel {
    /// The empty scene `Scene::new` makes.
    pub open spec fn initial() -> SceneModel {
        SceneModel { objects: Seq::empty(), selected_id: None, next_id: 1, name_counters: seq![0nat, 0nat, 0nat] }
    }

    /// The position of the selected object: the first one carrying the selected identifier.
    pub open spec fn selected_index(self) -> Option<int> {
        match self.selected_id {
            Some(id) => first_with_id(self.objects, id),
            None => None,
        }
    }

    /// Identifiers are distinct and below the next one.
    pub open spec fn well_formed(self) -> bool {
        ids_valid(self.objects, self.next_id)
    }

    pub open spec fn after_add(self, shape: ShapeType) -> SceneModel {
        let count = self.name_counters[shape.index_spec()] + 1;
        SceneModel {
            objects: self.objects.push(new_object(self.next_id as u64, shape, count)),
            next_id: self.next_id + 1,
            name_counters: self.name_counters.update(shape.index_spec(), count),
            ..self
        }
    }

    pub open spec fn after_select(self, id: Option<u64>) -> SceneModel {
        SceneModel { selected_id: id, ..self }
    }

    pub open spec fn after_remove_selected(self) -> SceneModel {
        match self.selected_id {
            Some(id) => SceneModel {
                objects: self.objects.filter(|o: ObjectView| o.id != id),
                selected_id: None,
                ..self
            },
            None => self,
        }
    }

    pub open spec fn after_edit_selected(self, o: ObjectView) -> SceneModel {
        match self.selected_index() {
            Some(i) => SceneModel {
                objects: self.objects.update(i, o),
                ..self
            },
            None => self,
        }
    }

    pub open spec fn apply(self, op: SceneOp) -> SceneModel {
        match op {
            SceneOp::Add(shape) => self.after_add(shape),
            SceneOp::Select(id) => self.after_select(id),
            SceneOp::RemoveSelected => self.after_remove_selected(),
            SceneOp::EditSelected(o) => self.after_edit_selected(o),
        }
    }

    /// `op` leaves every identifier as it was: it is no write through `get_selected_mut()` that
    /// gives the selected object another identifier.
    pub open spec fn keeps_ids(self, op: SceneOp) -> bool {
        match op {
            SceneOp::EditSelected(o) => match self.selected_index() {
                Some(i) => o.id == self.objects[i].id,
                None => true,
            },
            _ => true,
        }
    }

    /// The scene after `ops`, in order.
    pub open spec fn apply_all(self, ops: Seq<SceneOp>) -> SceneModel
        decreases ops.len(),
    {
        if ops.len() == 0 {
            self
        } else {
            self.apply_all(ops.drop_last()).apply(ops.last())
        }
    }
}

/// How many of `ops` add an object of `shape`.
pub open spec fn count_adds(ops: Seq<SceneOp>, shape: ShapeType) -> nat
    decreases ops.len(),
{
    if ops.len() == 0 {
        0
    } else {
        count_adds(ops.drop_last(), shape) + if ops.last() == SceneOp::Add(shape) {
            1nat
        } else {
            0nat
        }
    }
}

/// Each of `ops`, applied from `Scene::new()`, keeps the identifiers of the objects it finds.
pub open spec fn edits_keep_ids(ops: Seq<SceneOp>) -> bool
    decreases ops.len(),
{
    if ops.len() == 0 {
        true
    } else {
        edits_keep_ids(ops.drop_last()) && SceneModel::initial().apply_all(ops.drop_last()).keeps_ids(ops.last())
    }
}

/// How many of `ops` add an object.
pub open spec fn count_all_adds(ops: Seq<SceneOp>) -> nat
    decreases ops.len(),
{
    if ops.len() == 0 {
        0
    } else {
        count_all_adds(ops.drop_last()) + if ops.last() is Add {
            1nat
        } else {
            0nat
        }
    }
}

/// Serializable form of a scene: its objects and its counters, without the selection.
pub struct SceneData {
    pub objects: Vec<SceneObject>,
    pub next_id: u64,
    pub name_counters: [u32; 3],
}

impl SceneData {
    /// The scene these data load into: their objects and counters, nothing selected.
    pub open spec fn loaded_model(&self) -> SceneModel {
        SceneModel {
            objects: self.objects@.map_values(|o: SceneObject| o@),
            selected_id: None,
            next_id: self.next_id as nat,
            name_counters: self.name_counters@.map_values(|c: u32| c as nat),
        }
    }
}

/// The complete 2D scene containing all objects and selection state.
pub struct Scene {
    pub objects: Vec<SceneObject>,
    pub selected_id: Option<u64>,
    next_id: u64,
    name_counters: [u32; 3],
}

impl View for Scene {
    type V = SceneModel;

    closed spec fn view(&self) -> SceneModel {
        SceneModel {
            objects: self.objects@.map_values(|o: SceneObject| o@),
            selected_id: self.selected_id,
            next_id: self.next_id as nat,
            name_counters: self.name_counters@.map_values(|c: u32| c as nat),
        }
    }
}

impl Scene {
    pub fn new() -> (r: Self)
        ensures
            r@ == SceneModel::initial(),
    {
        let r = Scene { objects: Vec::new(), selected_id: None, next_id: 1, name_counters: [0, 0, 0] };
        assert(r@.objects =~= Seq::<ObjectView>::empty());
        assert(r@.name_counters =~= seq![0nat, 0nat, 0nat]);
        r
    }

    /// The identifier the next added object receives.
    pub fn next_id(&self) -> (r: u64)
        ensures
            r == self@.next_id,
    {
        self.next_id
    }

    /// How many objects of `shape` were ever added.
    pub fn name_counter(&self, shape: ShapeType) -> (r: u32)
        ensures
            r == self@.name_counters[shape.index_spec()],
    {
        self.name_counters[shape.index()]
    }

    /// Add a new object with auto-generated name and default transform.
    pub fn add_object(&mut self, shape: ShapeType) -> (id: u64)
        requires
            old(self)@.next_id < u64::MAX,
            old(self)@.name_counters[shape.index_spec()] < u32::MAX,
        ensures
            id == old(self)@.next_id,
            final(self)@ == old(self)@.after_add(shape),
            final(self)@.objects.len() == old(self)@.objects.len() + 1,
            final(self)@.objects.drop_last() == old(self)@.objects,
            final(self)@.objects.last().id == id,
            final(self)@.objects.last().shape == shape,
            final(self)@.objects.last().x == DEFAULT_POSITION_BITS,
            final(self)@.objects.last().y == DEFAULT_POSITION_BITS,
            final(self)@.objects.last().width == DEFAULT_SIZE_BITS,
            final(self)@.objects.last().height == DEFAULT_SIZE_BITS,
            final(self)@.objects.last().rotation == DEFAULT_ROTATION_BITS,
            final(self)@.selected_id == old(self)@.selected_id,
    {
        let idx = shape.index();
        let count = self.name_counters[idx] + 1;
        self.name_counters[idx] = count;
        let id = self.next_id;
        self.next_id = self.next_id + 1;

        let prefix = concat_str(shape.name(), " ");
        let digits = decimal_string(count as u64);
        let name = concat_str(prefix.as_str(), digits.as_str());

        proof {
            reveal_strlit(" ");
            assert(name@ =~= object_name(shape, count as nat));
        }
        let ghost before = self.objects@;
        self.objects.push(SceneObject {
            id,
            name,
            shape,
            x: DEFAULT_POSITION_BITS,
            y: DEFAULT_POSITION_BITS,
            width: DEFAULT_SIZE_BITS,
            height: DEFAULT_SIZE_BITS,
            rotation: DEFAULT_ROTATION_BITS,
        });
        proof {
            reveal_strlit(" ");
            let o = old(self)@;
            assert(self.objects@.last()@ == new_object(o.next_id as u64, shape, count as nat));
            assert(self.objects@ == before.push(self.objects@.last()));
            assert(self@.objects =~= o.objects.push(new_object(o.next_id as u64, shape, count as nat)));
            assert(self@.name_counters =~= o.name_counters.update(idx as int, count as nat));
            assert(self@.objects.drop_last() =~= o.objects);
        }
        id
    }

    /// Position of the first object whose identifier is the selected one.
    fn selected_index(&self) -> (r: Option<usize>)
        ensures
            match r {
                Some(i) => self@.selected_index() == Some(i as int),
                None => self@.selected_index().is_none(),
            },
    {
        match self.selected_id {
            None => None,
            Some(id) => {
                let ghost objs = self@.objects;
                let mut i: usize = 0;
                while i < self.objects.len()
                    invariant
                        i <= self.objects@.len(),
                        objs == self@.objects,
                        self.selected_id == Some(id),
                        forall|j: int| 0 <= j < i ==> objs[j].id != id,
                    decreases self.objects@.len() - i,
                {
                    if self.objects[i].id == id {
                        proof {
                            lemma_first_with_id_is(objs, id, i as int);
                        }
                        return Some(i);
                    }
                    i = i + 1;
                }
                proof {
                    lemma_no_first_with_id(objs, id);
                }
                None
            },
        }
    }

    /// Remove the currently selected object, if any.
    pub fn remove_selected(&mut self)
        ensures
            final(self)@ == old(self)@.after_remove_selected(),
    {
        if let Some(id) = self.selected_id {
            let ghost pred = |o: ObjectView| o.id != id;
            let ghost objs = self@.objects;
            let mut kept: Vec<SceneObject> = Vec::new();
            let mut i: usize = 0;
            while i < self.objects.len()
                invariant
                    i <= self.objects@.len(),
                    objs == self.objects@.map_values(|o: SceneObject| o@),
                    pred == (|o: ObjectView| o.id != id),
                    kept@.map_values(|o: SceneObject| o@) == objs.take(i as int).filter(pred),
                decreases self.objects@.len() - i,
            {
                proof {
                    objs.take(i as int).lemma_filter_push(objs[i as int], pred);
                    assert(objs.take(i + 1) =~= objs.take(i as int).push(objs[i as int]));
                }
                if self.objects[i].id != id {
                    let ghost before = kept@;
                    kept.push(self.objects[i].duplicate());
                    proof {
                        assert(kept@.map_values(|o: SceneObject| o@) =~= before.map_values(|o: SceneObject| o@).push(
                            objs[i as int],
                        ));
                    }
                }
                i = i + 1;
            }
            proof {
                assert(objs.take(objs.len() as int) =~= objs);
            }
            self.objects = kept;
            self.selected_id = None;
            proof {
                assert(self@.objects == old(self)@.objects.filter(pred));
            }
        }
    }

    /// Get a reference to the selected object.
    pub fn get_selected(&self) -> (r: Option<&SceneObject>)
        ensures
            match r {
                Some(o) => self@.selected_index() is Some && o@ == self@.objects[self@.selected_index()->0],
                None => self@.selected_index() is None,
            },
    {
        match self.selected_index() {
            Some(i) => Some(&self.objects[i]),
            None => None,
        }
    }

    /// Get a mutable reference to the selected object. Writing through it changes that object
    /// and nothing else.
    pub fn get_selected_mut(&mut self) -> (r: Option<&mut SceneObject>)
        ensures
            match r {
                Some(o) => {
                    &&& old(self)@.selected_index() is Some
                    &&& o@ == old(self)@.objects[old(self)@.selected_index()->0]
                    &&& final(self)@.objects =~= old(self)@.objects.update(old(self)@.selected_index()->0, final(o)@)
                    &&& final(self)@.selected_id == old(self)@.selected_id
                    &&& final(self)@.next_id == old(self)@.next_id
                    &&& final(self)@.name_counters == old(self)@.name_counters
                },
                None => old(self)@.selected_index() is None && final(self)@ == old(self)@,
            },
    {
        match self.selected_index() {
            Some(i) => Some(&mut self.objects[i]),
            None => None,
        }
    }

    /// Set or clear the selection.
    pub fn select(&mut self, id: Option<u64>)
        ensures
            final(self)@ == old(self)@.after_select(id),
    {
        self.selected_id = id;
    }

    pub fn object_count(&self) -> (r: usize)
        ensures
            r == self@.objects.len(),
    {
        self.objects.len()
    }

    /// Selects the topmost object that the pointer hits, or clears the selection when it hits none.
    ///
    /// `hits[i]` tells whether object `i` lies under the pointer; objects later in the list are drawn
    /// on top, so the last hit one wins.
    pub fn select_topmost(&mut self, hits: &Vec<bool>)
        requires
            hits@.len() == old(self)@.objects.len(),
        ensures
            final(self)@.objects == old(self)@.objects,
            final(self)@.selected_id is None <==> (forall|i: int| 0 <= i < hits@.len() ==> !hits@[i]),
            forall|i: int|
                0 <= i < hits@.len() && hits@[i] && (forall|j: int| i < j < hits@.len() ==> !hits@[j])
                    ==> final(self)@.selected_id == Some(old(self)@.objects[i].id),
            final(self)@ == old(self)@.after_select(
                match last_hit(hits@) {
                    Some(i) => Some(old(self)@.objects[i].id),
                    None => None,
                },
            ),
    {
        proof {
            lemma_last_hit_is_topmost(hits@);
        }
        let mut i: usize = self.objects.len();
        proof {
            assert(hits@.take(i as int) =~= hits@);
        }
        while i > 0
            invariant
                i <= hits@.len(),
                hits@.len() == self.objects@.len(),
                self.objects@ == old(self).objects@,
                self@ == old(self)@,
                last_hit(hits@) == last_hit(hits@.take(i as int)),
            decreases i,
        {
            proof {
                assert(hits@.take(i as int).drop_last() =~= hits@.take(i - 1));
            }
            i = i - 1;
            if hits[i] {
                let id = self.objects[i].id;
                self.select(Some(id));
                proof {
                    lemma_last_hit_is_topmost(hits@);
                    assert(last_hit(hits@) == Some(i as int));
                    assert forall|k: int|
                        0 <= k < hits@.len() && hits@[k] && (forall|j: int| k < j < hits@.len() ==> !hits@[j])
                            implies k == i by {
                        assert(last_hit(hits@) == Some(k) <==> (hits@[k] && forall|j: int|
                            k < j < hits@.len() ==> !hits@[j]));
                    }
                }
                return;
            }
        }
        proof {
            assert(hits@.take(0) =~= Seq::<bool>::empty());
        }
        self.select(None);
    }

    /// Whether the scene differs from an earlier state of it (its objects `earlier` and its
    /// selection `earlier_selected`) in the number of objects, the selection, or the name of an
    /// object, objects being compared position by position. The transform, which the editor edits
    /// as numbers, is left to the caller.
    pub fn changed_apart_from_transform(&self, earlier: &Vec<SceneObject>, earlier_selected: Option<u64>) -> (r:
        bool)
        ensures
            r == (self@.objects.len() != earlier@.len() || self@.selected_id != earlier_selected || exists|i: int|
                0 <= i < earlier@.len() && self@.objects[i].name != earlier@[i].name@),
    {
        if self.objects.len() != earlier.len() {
            return true;
        }
        let same_selection = match (self.selected_id, earlier_selected) {
            (Some(a), Some(b)) => a == b,
            (None, None) => true,
            _ => false,
        };
        if !same_selection {
            return true;
        }
        let mut i: usize = 0;
        while i < earlier.len()
            invariant
                i <= earlier@.len(),
                earlier@.len() == self.objects@.len(),
                forall|j: int| 0 <= j < i ==> self@.objects[j].name == earlier@[j].name@,
            decreases earlier@.len() - i,
        {
            if self.objects[i].name != earlier[i].name {
                proof {
                    assert(self@.objects[i as int].name != earlier@[i as int].name@);
                }
                return true;
            }
            i = i + 1;
        }
        false
    }

    /// The serializable part of the scene: everything but the selection.
    pub fn to_scene_data(&self) -> (d: SceneData)
        ensures
            d.loaded_model() == self@.after_select(None),
    {
        let mut objects: Vec<SceneObject> = Vec::new();
        let mut i: usize = 0;
        while i < self.objects.len()
            invariant
                i <= self.objects@.len(),
                objects@ == self.objects@.take(i as int),
            decreases self.objects@.len() - i,
        {
            objects.push(self.objects[i].duplicate());
            proof {
                assert(objects@ =~= self.objects@.take(i + 1));
            }
            i = i + 1;
        }
        proof {
            assert(objects@ =~= self.objects@);
        }
        let d = SceneData { objects, next_id: self.next_id, name_counters: self.name_counters };
        proof {
            assert(d.loaded_model().objects =~= self@.objects);
            assert(d.loaded_model().name_counters =~= self@.name_counters);
        }
        d
    }

    /// A scene holding the saved objects and counters, with nothing selected.
    pub fn from_scene_data(data: SceneData) -> (r: Scene)
        ensures
            r@ == data.loaded_model(),
    {
        Scene { objects: data.objects, selected_id: None, next_id: data.next_id, name_counters: data.name_counters }
    }
}

impl Default for Scene {
    fn default() -> (r: Self)
        ensures
            r@ == SceneModel::initial(),
    {
        Self::new()
    }
}

/// Adding an object appends exactly one object and leaves the others and the selection alone; the
/// new object, whatever its shape, carries the next identifier, that shape, the next name of that
/// shape and the default transform: position 100, size 80 by 80, rotation 0.
pub proof fn lemma_added_object_is_default(m: SceneModel, shape: ShapeType)
    ensures
        m.after_add(shape).objects.len() == m.objects.len() + 1,
        forall|i: int| 0 <= i < m.objects.len() ==> m.after_add(shape).objects[i] == m.objects[i],
        m.after_add(shape).selected_id == m.selected_id,
        m.after_add(shape).objects.last().id == m.next_id as u64,
        m.after_add(shape).objects.last().shape == shape,
        m.after_add(shape).objects.last().name == shape.name_spec() + seq![' '] + decimal(
            m.name_counters[shape.index_spec()] + 1,
        ),
        m.after_add(shape).objects.last().x == 0x42C8_0000u32,
        m.after_add(shape).objects.last().y == 0x42C8_0000u32,
        m.after_add(shape).objects.last().width == 0x42A0_0000u32,
        m.after_add(shape).objects.last().height == 0x42A0_0000u32,
        m.after_add(shape).objects.last().rotation == 0u32,
{
}

/// Removing the selected object clears the selection and leaves no object with its identifier,
/// keeps every other object in order, and never lowers the next identifier or a name counter;
/// with nothing selected it changes nothing.
pub proof fn lemma_remove_selected_clears_selection(m: SceneModel)
    ensures
        m.after_remove_selected().selected_id is None,
        m.after_remove_selected().next_id == m.next_id,
        m.after_remove_selected().name_counters == m.name_counters,
        m.selected_id is None ==> m.after_remove_selected() == m,
        m.selected_id is Some ==> has_no_id(m.after_remove_selected().objects, m.selected_id->0),
        m.selected_id is Some ==> forall|i: int|
            0 <= i < m.objects.len() && m.objects[i].id != m.selected_id->0
                ==> m.after_remove_selected().objects.contains(#[trigger] m.objects[i]),
{
    if let Some(id) = m.selected_id {
        let pred = |o: ObjectView| o.id != id;
        let f = m.objects.filter(pred);
        assert forall|j: int| 0 <= j < f.len() implies f[j].id != id by {
            m.objects.lemma_filter_pred(pred, j);
        }
        assert forall|i: int| 0 <= i < m.objects.len() && m.objects[i].id != id implies f.contains(
            #[trigger] m.objects[i],
        ) by {
            m.objects.lemma_filter_contains(pred, i);
        }
    }
}

/// The topmost hit is the hit object with no hit object above it: `last_hit(hits)` is `i` exactly
/// when `hits[i]` holds and no later entry does, and there is none exactly when no entry holds.
pub proof fn lemma_last_hit_is_topmost(hits: Seq<bool>)
    ensures
        forall|i: int|
            0 <= i < hits.len() ==> (last_hit(hits) == Some(i) <==> (hits[i] && forall|j: int|
                i < j < hits.len() ==> !hits[j])),
        last_hit(hits) is None <==> (forall|i: int| 0 <= i < hits.len() ==> !hits[i]),
        last_hit(hits) is Some ==> 0 <= last_hit(hits)->0 < hits.len(),
    decreases hits.len(),
{
    if hits.len() > 0 {
        let rest = hits.drop_last();
        lemma_last_hit_is_topmost(rest);
        let n = hits.len() - 1;
        if !hits.last() {
            assert forall|i: int| 0 <= i < hits.len() implies (last_hit(hits) == Some(i) <==> (hits[i] && forall|
                j: int,
            | i < j < hits.len() ==> !hits[j])) by {
                if i < n {
                    assert(rest[i] == hits[i]);
                    if hits[i] && forall|j: int| i < j < rest.len() ==> !rest[j] {
                        assert forall|j: int| i < j < hits.len() implies !hits[j] by {
                            if j < n {
                                assert(rest[j] == hits[j]);
                            }
                        }
                    }
                    if hits[i] && forall|j: int| i < j < hits.len() ==> !hits[j] {
                        assert forall|j: int| i < j < rest.len() implies !rest[j] by {
                            assert(rest[j] == hits[j]);
                        }
                    }
                }
            }
            if forall|i: int| 0 <= i < rest.len() ==> !rest[i] {
                assert forall|i: int| 0 <= i < hits.len() implies !hits[i] by {
                    if i < n {
                        assert(rest[i] == hits[i]);
                    }
                }
            }
            if forall|i: int| 0 <= i < hits.len() ==> !hits[i] {
                assert forall|i: int| 0 <= i < rest.len() implies !rest[i] by {
                    assert(rest[i] == hits[i]);
                }
            }
        } else {
            assert forall|i: int| 0 <= i < hits.len() implies (last_hit(hits) == Some(i) <==> (hits[i] && forall|
                j: int,
            | i < j < hits.len() ==> !hits[j])) by {
                if i < n {
                    assert(!(forall|j: int| i < j < hits.len() ==> !hits[j]));
                }
            }
            assert(hits[n]);
        }
    }
}

/// The object at `i` is the first one carrying its identifier exactly when no earlier one does.
proof fn lemma_first_with_id_is(objs: Seq<ObjectView>, id: u64, i: int)
    requires
        is_first_with_id(objs, id, i),
    ensures
        first_with_id(objs, id) == Some(i),
{
    let j = choose|j: int| is_first_with_id(objs, id, j);
    assert(is_first_with_id(objs, id, j));
    if j < i {
        assert(objs[j].id != id);
    } else if i < j {
        assert(objs[i].id != id);
    }
}

proof fn lemma_no_first_with_id(objs: Seq<ObjectView>, id: u64)
    requires
        has_no_id(objs, id),
    ensures
        first_with_id(objs, id).is_none(),
{
    if exists|i: int| is_first_with_id(objs, id, i) {
        let i = choose|i: int| is_first_with_id(objs, id, i);
        assert(objs[i].id == id);
    }
}

/// In a scene whose identifiers are distinct, the object at `i` is the one found for its
/// identifier, and no other object carries it.
pub proof fn lemma_unique_id_is_first(objs: Seq<ObjectView>, bound: nat, i: int)
    requires
        ids_valid(objs, bound),
        0 <= i < objs.len(),
    ensures
        first_with_id(objs, objs[i].id) == Some(i),
        forall|j: int| 0 <= j < objs.len() && j != i ==> objs[j].id != objs[i].id,
{
    lemma_first_with_id_is(objs, objs[i].id, i);
}

/// In a scene whose identifiers are distinct, removing the selected object `objs[i]` removes
/// exactly that object and keeps the others in order.
pub proof fn lemma_remove_selected_removes_one(objs: Seq<ObjectView>, bound: nat, i: int)
    requires
        ids_valid(objs, bound),
        0 <= i < objs.len(),
    ensures
        objs.filter(|o: ObjectView| o.id != objs[i].id) == objs.remove(i),
{
    let id = objs[i].id;
    let pred = |o: ObjectView| o.id != id;
    assert forall|j: int| 0 <= j < objs.len() && j != i implies pred(#[trigger] objs[j]) by {}
    lemma_filter_removes_only(objs, pred, i);
}

/// Filtering keeps identifiers valid.
proof fn lemma_filter_keeps_ids_valid(s: Seq<ObjectView>, pred: spec_fn(ObjectView) -> bool, bound: nat)
    requires
        ids_valid(s, bound),
    ensures
        ids_valid(s.filter(pred), bound),
    decreases s.len(),
{
    reveal(Seq::filter);
    if s.len() > 0 {
        let rest = s.drop_last();
        assert(ids_valid(rest, bound));
        lemma_filter_keeps_ids_valid(rest, pred, bound);
        let f0 = rest.filter(pred);
        if pred(s.last()) {
            let f = f0.push(s.last());
            assert forall|j: int| 0 <= j < f0.len() implies #[trigger] f0[j].id != s.last().id by {
                assert(f0.contains(f0[j]));
                rest.lemma_filter_contains_rev(pred, f0[j]);
                let k = choose|k: int| 0 <= k < rest.len() && rest[k] == f0[j];
                assert(s[k] == rest[k]);
            }
            assert forall|j: int, k: int| 0 <= j < f.len() && 0 <= k < f.len() && j != k implies f[j].id != f[k].id by {
                if j < f0.len() && k < f0.len() {
                    assert(f[j] == f0[j] && f[k] == f0[k]);
                } else if j < f0.len() {
                    assert(f[j] == f0[j]);
                } else {
                    assert(f[k] == f0[k]);
                }
            }
            assert forall|j: int| 0 <= j < f.len() implies f[j].id < bound by {
                if j < f0.len() {
                    assert(f[j] == f0[j]);
                }
            }
        }
    }
}

/// Every change that keeps identifiers keeps a well-formed scene well-formed, as long as the next
/// identifier fits in 64 bits; an added object's identifier is carried by no object already there.
pub proof fn lemma_op_keeps_well_formed(m: SceneModel, op: SceneOp)
    requires
        m.well_formed(),
        m.next_id <= u64::MAX,
        m.keeps_ids(op),
    ensures
        m.apply(op).well_formed(),
        op is Add ==> has_no_id(m.objects, m.next_id as u64),
{
    match op {
        SceneOp::Add(shape) => {
            let n = m.apply(op);
            assert forall|j: int, k: int|
                0 <= j < n.objects.len() && 0 <= k < n.objects.len() && j != k implies n.objects[j].id
                != n.objects[k].id by {
                if j < m.objects.len() && k < m.objects.len() {
                    assert(n.objects[j] == m.objects[j] && n.objects[k] == m.objects[k]);
                } else if j < m.objects.len() {
                    assert(n.objects[j] == m.objects[j]);
                } else {
                    assert(n.objects[k] == m.objects[k]);
                }
            }
            assert forall|j: int| 0 <= j < n.objects.len() implies n.objects[j].id < n.next_id by {
                if j < m.objects.len() {
                    assert(n.objects[j] == m.objects[j]);
                }
            }
        },
        SceneOp::Select(id) => {},
        SceneOp::RemoveSelected => {
            if let Some(id) = m.selected_id {
                lemma_filter_keeps_ids_valid(m.objects, |o: ObjectView| o.id != id, m.next_id);
            }
        },
        SceneOp::EditSelected(o) => {
            if let Some(i) = m.selected_index() {
                let n = m.apply(op);
                assert forall|j: int| 0 <= j < n.objects.len() implies #[trigger] n.objects[j].id == m.objects[j].id by {
                }
            }
        },
    }
}

/// A scene reached from `Scene::new()` by any changes `ops` counts, for each shape, exactly the
/// objects of that shape that `ops` added (removals and writes do not change it); its next
/// identifier is one more than the number of objects ever added; and while that number stays
/// below `u64::MAX` and no write changed an identifier, its identifiers are distinct and below the
/// next one.
pub proof fn lemma_reachable_scene(ops: Seq<SceneOp>)
    ensures
        SceneModel::initial().apply_all(ops).name_counters.len() == 3,
        forall|shape: ShapeType|
            SceneModel::initial().apply_all(ops).name_counters[#[trigger] shape.index_spec()] == count_adds(
                ops,
                shape,
            ),
        SceneModel::initial().apply_all(ops).next_id == 1 + count_all_adds(ops),
        count_all_adds(ops) < u64::MAX && edits_keep_ids(ops) ==> SceneModel::initial().apply_all(
            ops,
        ).well_formed(),
    decreases ops.len(),
{
    if ops.len() > 0 {
        let rest = ops.drop_last();
        lemma_reachable_scene(rest);
        let m = SceneModel::initial().apply_all(rest);
        let op = ops.last();
        if count_all_adds(ops) < u64::MAX && edits_keep_ids(ops) {
            lemma_op_keeps_well_formed(m, op);
        }
        assert forall|shape: ShapeType|
            SceneModel::initial().apply_all(ops).name_counters[#[trigger] shape.index_spec()] == count_adds(
                ops,
                shape,
            ) by {
            match op {
                SceneOp::Add(s2) => {
                    if s2 == shape {
                    } else {
                        assert(s2.index_spec() != shape.index_spec());
                    }
                },
                SceneOp::RemoveSelected => {
                    if let Some(id) = m.selected_id {
                    }
                },
                SceneOp::EditSelected(o) => {
                    if let Some(i) = m.selected_index() {
                    }
                },
                _ => {},
            }
        }
    } else {
        assert forall|shape: ShapeType|
            SceneModel::initial().apply_all(ops).name_counters[#[trigger] shape.index_spec()] == count_adds(
                ops,
                shape,
            ) by {
        }
    }
}

/// Names are numbered per shape: in a scene reached from `Scene::new()` by `ops`, the object that a
/// further `add_object(shape)` creates is named "<Shape> k+1", where k is the number of objects of
/// that shape that `ops` added.
pub proof fn lemma_names_count_per_shape(ops: Seq<SceneOp>, shape: ShapeType)
    ensures
        SceneModel::initial().apply_all(ops.push(SceneOp::Add(shape))).objects.last().name == object_name(
            shape,
            count_adds(ops, shape) + 1,
        ),
{
    lemma_reachable_scene(ops);
    assert(ops.push(SceneOp::Add(shape)).drop_last() =~= ops);
}

/// A prefix of a sequence of changes adds no more objects than the whole.
proof fn lemma_count_all_adds_prefix(ops: Seq<SceneOp>, j: int)
    requires
        0 <= j <= ops.len(),
    ensures
        count_all_adds(ops.take(j)) <= count_all_adds(ops),
    decreases ops.len() - j,
{
    if j < ops.len() {
        lemma_count_all_adds_prefix(ops, j + 1);
        assert(ops.take(j + 1).drop_last() =~= ops.take(j));
    } else {
        assert(ops.take(j) =~= ops);
    }
}

/// Identifiers are never reused: in any sequence of changes from `Scene::new()`, the identifier
/// each `add_object` returns (the next identifier before it) is larger than the one every earlier
/// `add_object` returned; and where fewer than `u64::MAX` objects are added and no write changed
/// an identifier before it, no object in the scene carries it when it is returned.
pub proof fn lemma_identifiers_never_reused(ops: Seq<SceneOp>, j1: int, j2: int)
    requires
        0 <= j1 < j2 < ops.len(),
        ops[j1] is Add,
        ops[j2] is Add,
    ensures
        SceneModel::initial().apply_all(ops.take(j1)).next_id < SceneModel::initial().apply_all(
            ops.take(j2),
        ).next_id,
        count_all_adds(ops) < u64::MAX && edits_keep_ids(ops.take(j2)) ==> has_no_id(
            SceneModel::initial().apply_all(ops.take(j2)).objects,
            SceneModel::initial().apply_all(ops.take(j2)).next_id as u64,
        ),
{
    lemma_reachable_scene(ops.take(j1));
    lemma_reachable_scene(ops.take(j2));
    lemma_count_all_adds_prefix(ops, j2);
    lemma_count_all_adds_prefix(ops.take(j2), j1 + 1);
    assert(ops.take(j2).take(j1 + 1) =~= ops.take(j1 + 1));
    assert(ops.take(j1 + 1).drop_last() =~= ops.take(j1));
    assert(ops.take(j1 + 1).last() == ops[j1]);
    let m = SceneModel::initial().apply_all(ops.take(j2));
    if count_all_adds(ops) < u64::MAX && edits_keep_ids(ops.take(j2)) {
        lemma_op_keeps_well_formed(m, ops[j2]);
    }
}

/// What `get_selected_mut` promises of a write through the reference it returns is the change
/// `SceneOp::EditSelected` with the written value.
pub proof fn lemma_selected_write_is_edit(before: SceneModel, after: SceneModel, v: ObjectView)
    requires
        before.selected_index() is Some,
        after.objects =~= before.objects.update(before.selected_index()->0, v),
        after.selected_id == before.selected_id,
        after.next_id == before.next_id,
        after.name_counters == before.name_counters,
    ensures
        after == before.apply(SceneOp::EditSelected(v)),
{
}

/// Turning a scene into its data and back yields the same objects, counters and next identifier,
/// with nothing selected; a scene with consistent identifiers stays consistent.
pub proof fn lemma_scene_data_round_trip(s: Scene, d: SceneData, t: Scene)
    requires
        d.loaded_model() == s@.after_select(None),
        t@ == d.loaded_model(),
    ensures
        t@.objects == s@.objects,
        t@.next_id == s@.next_id,
        t@.name_counters == s@.name_counters,
        t@.selected_id.is_none(),
        s@.well_formed() ==> t@.well_formed(),
{
}
/// Objects get distinct names as long as their shapes or their counts differ.
pub proof fn lemma_object_names_distinct(s1: ShapeType, n1: nat, s2: ShapeType, n2: nat)
    requires
        s1 != s2 || n1 != n2,
    ensures
        object_name(s1, n1) != object_name(s2, n2),
{
    let a = object_name(s1, n1);
    let b = object_name(s2, n2);
    if a == b {
        let k1 = s1.name_spec().len();
        let k2 = s2.name_spec().len();
        assert(a[k1 as int] == ' ');
        assert(b[k2 as int] == ' ');
        lemma_no_space_in_decimal(n1);
        lemma_no_space_in_decimal(n2);
        if k1 < k2 {
            assert(b[k1 as int] == s2.name_spec()[k1 as int]);
        } else if k2 < k1 {
            assert(a[k2 as int] == s1.name_spec()[k2 as int]);
        }
        assert(k1 == k2);
        assert(s1 == s2);
        assert(decimal(n1) =~= a.skip(k1 + 1 as int));
        assert(decimal(n2) =~= b.skip(k2 + 1 as int));
        lemma_decimal_injective(n1, n2);
    }
}

} // verus!
