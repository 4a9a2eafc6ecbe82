//! The window list, the selection, and the overlay layout.
//!
//! One item per tracked compositor window, held in most-recently-used
//! order. The reactor owns this state exclusively; everything here is
//! plain data and verified logic.

use vstd::prelude::*;

verus! {

/// The most items the overlay tracks; keeps layout arithmetic in `u32`.
pub const MAX_ITEMS: usize = 4096;

/// The largest accepted value of any layout dimension or gap.
pub const MAX_DIM: u32 = 16384;

/// A preview image attached to an item: a caller-chosen texture token
/// and the image's size. The pixel data itself lives with the renderer.
#[derive(Clone, Copy, PartialEq, Eq, Structural, Debug)]
pub struct Preview {
    pub texture: u64,
    pub width: u32,
    pub height: u32,
}

/// One tracked toplevel window.
pub struct Item {
    pub id: u32,
    pub title: String,
    pub app_id: String,
    pub outputs: Vec<u32>,
    pub preview: Option<Preview>,
}

impl Item {
    fn new(id: u32) -> (it: Item)
        ensures
            it.id == id,
            it.title@ == Seq::<char>::empty(),
            it.app_id@ == Seq::<char>::empty(),
            it.outputs@ == Seq::<u32>::empty(),
            it.preview is None,
    {
        Item {
            id,
            title: String::new(),
            app_id: String::new(),
            outputs: Vec::new(),
            preview: None,
        }
    }

    pub fn get_preview(&self) -> (p: &Option<Preview>)
        ensures
            p == self.preview,
    {
        &self.preview
    }

    pub fn get_app_id(&self) -> (s: &str)
        ensures
            s@ == self.app_id@,
    {
        self.app_id.as_str()
    }

    /// The label shown for this item: the title and the application id
    /// joined, with the id's first letter uppercased; or the title
    /// alone; or a stand-in when both are empty.
    pub fn get_title(&self) -> (s: String)
        ensures
            self.app_id@.len() == 0 && self.title@.len() == 0 ==> s@ == "Untitled Window"@,
            self.app_id@.len() == 0 && self.title@.len() > 0 ==> s@ == self.title@,
            self.app_id@.len() > 0 ==> s@ == self.title@ + " | "@ + upper_of(self.app_id@.take(1))
                + self.app_id@.skip(1),
    {
        let app_id_len = self.app_id.as_str().unicode_len();
        if app_id_len == 0 {
            if self.title.as_str().unicode_len() == 0 {
                return "Untitled Window".to_owned();
            }
            return self.title.clone();
        }
        let first = self.app_id.as_str().substring_char(0, 1);
        let rest = self.app_id.as_str().substring_char(1, app_id_len);
        proof {
            assert(first@ =~= self.app_id@.take(1));
            assert(rest@ =~= self.app_id@.skip(1));
        }
        let joined = self.title.clone().concat(" | ");
        let joined = joined.concat(uppercase(first).as_str());
        joined.concat(rest)
    }
}

/// What `str::to_uppercase` returns for the given characters.
pub uninterp spec fn upper_of(s: Seq<char>) -> Seq<char>;

/// Relies on `str::to_uppercase`: the uppercased text depends on the
/// characters alone, and an empty string stays empty.
#[verifier::external_body]
fn uppercase(s: &str) -> (r: String)
    ensures
        r@ == upper_of(s@),
        s@.len() == 0 ==> r@.len() == 0,
{
    s.to_uppercase()
}

/// The integer layout parameters: sizes, gaps and strokes in logical
/// pixels. Colors and corner radii concern only the painter and stay
/// with it outside this crate.
pub struct LayoutParams {
    pub window_max_width: u32,
    pub window_padding: u32,
    pub items_horizontal_gap: u32,
    pub items_vertical_gap: u32,
    pub item_stroke: u32,
    pub item_padding: u32,
    pub item_horizontal_gap: u32,
    pub item_vertical_gap: u32,
    pub icon_size: u32,
    pub title_height: u32,
    pub preview_height: u32,
    pub preview_min_width: u32,
    pub preview_max_width: u32,
}

impl LayoutParams {
    /// Parameters the layout arithmetic can take without overflow or
    /// underflow.
    pub open spec fn wf(&self) -> bool {
        &&& self.window_max_width <= MAX_DIM
        &&& self.window_padding <= MAX_DIM
        &&& self.items_horizontal_gap <= MAX_DIM
        &&& self.items_vertical_gap <= MAX_DIM
        &&& self.item_stroke <= MAX_DIM
        &&& self.item_padding <= MAX_DIM
        &&& self.item_horizontal_gap <= MAX_DIM
        &&& self.item_vertical_gap <= MAX_DIM
        &&& self.icon_size <= MAX_DIM
        &&& self.title_height <= MAX_DIM
        &&& self.preview_height <= MAX_DIM
        &&& self.preview_min_width <= MAX_DIM
        &&& self.preview_max_width <= MAX_DIM
        &&& 2 * self.window_padding <= self.window_max_width
        &&& self.preview_min_width <= self.preview_max_width
    }
}

/// The parameters a fresh state starts from.
pub open spec fn spec_default_layout_params() -> LayoutParams {
    LayoutParams {
        window_max_width: 800,
        window_padding: 0,
        items_horizontal_gap: 0,
        items_vertical_gap: 0,
        item_stroke: 0,
        item_padding: 0,
        item_horizontal_gap: 0,
        item_vertical_gap: 0,
        icon_size: 0,
        title_height: 25,
        preview_height: 100,
        preview_min_width: 100,
        preview_max_width: 200,
    }
}

impl Default for LayoutParams {
    fn default() -> (p: LayoutParams)
        ensures
            p.wf(),
            p == spec_default_layout_params(),
    {
        LayoutParams {
            window_max_width: 800,
            window_padding: 0,
            items_horizontal_gap: 0,
            items_vertical_gap: 0,
            item_stroke: 0,
            item_padding: 0,
            item_horizontal_gap: 0,
            item_vertical_gap: 0,
            icon_size: 0,
            title_height: 25,
            preview_height: 100,
            preview_min_width: 100,
            preview_max_width: 200,
        }
    }
}

/// An axis-aligned rectangle in logical pixels, by its corners.
#[derive(Clone, Copy, PartialEq, Eq, Structural, Debug)]
pub struct Rect {
    pub x0: u32,
    pub y0: u32,
    pub x1: u32,
    pub y1: u32,
}

/// What one layout pass computed: the window size to report to the
/// compositor and one rectangle per item.
pub struct LayoutComputed {
    pub window_width: u32,
    pub window_height: u32,
    pub item_rects: Vec<Rect>,
}

impl Default for LayoutComputed {
    fn default() -> (c: LayoutComputed)
        ensures
            c.window_width == 0,
            c.window_height == 0,
            c.item_rects@ == Seq::<Rect>::empty(),
    {
        LayoutComputed { window_width: 0, window_height: 0, item_rects: Vec::new() }
    }
}

/// What a paint pass reads: the selection, the hover, and the computed
/// layout of the moment.
pub struct LayoutResult {
    pub selected_item: usize,
    pub hovered_item: Option<usize>,
    pub window_width: u32,
    pub window_height: u32,
}

/// The outputs with every record of one output removed.
pub open spec fn spec_without_output(outputs: Seq<u32>, output: u32) -> Seq<u32> {
    outputs.filter(|o: u32| o != output)
}

/// The least index of the item with the given id, if any.
pub open spec fn spec_find_item(items: Seq<Item>, id: u32) -> Option<int>
    decreases items.len(),
{
    if items.len() == 0 {
        None
    } else if items[0].id == id {
        Some(0)
    } else {
        match spec_find_item(items.skip(1), id) {
            Some(i) => Some(i + 1),
            None => None,
        }
    }
}

/// `spec_find_item` finds the least matching index, and only fails when
/// nothing matches.
pub proof fn lemma_find_item_props(items: Seq<Item>, id: u32)
    ensures
        match spec_find_item(items, id) {
            Some(i) => 0 <= i < items.len() && items[i].id == id && (forall|j: int|
                0 <= j < i ==> items[j].id != id),
            None => forall|j: int| 0 <= j < items.len() ==> items[j].id != id,
        },
    decreases items.len(),
{
    if items.len() != 0 && items[0].id != id {
        lemma_find_item_props(items.skip(1), id);
        match spec_find_item(items.skip(1), id) {
            Some(i) => {
                assert(items[i + 1] == items.skip(1)[i]);
                assert forall|j: int| 0 <= j < i + 1 implies items[j].id != id by {
                    if j > 0 {
                        assert(items[j] == items.skip(1)[j - 1]);
                    }
                }
            }
            None => {
                assert forall|j: int| 0 <= j < items.len() implies items[j].id != id by {
                    if j > 0 {
                        assert(items[j] == items.skip(1)[j - 1]);
                    }
                }
            }
        }
    }
}

/// The state behind the overlay panel: the item list in
/// most-recently-used order, the selection, and the layout.
pub struct GuiState {
    pub items: Vec<Item>,
    pub selected_item: usize,
    pub hovered_item: Option<usize>,
    pub needs_repaint: bool,
    pub layout_params: LayoutParams,
    pub layout_computed: LayoutComputed,
}

impl Default for GuiState {
    fn default() -> (g: GuiState)
        ensures
            g.wf(),
            g.items@ == Seq::<Item>::empty(),
            g.selected_item == 0,
            g.hovered_item is None,
            g.needs_repaint == false,
            g.layout_params == spec_default_layout_params(),
            g.layout_computed.window_width == 0,
            g.layout_computed.window_height == 0,
            g.layout_computed.item_rects@ == Seq::<Rect>::empty(),
    {
        GuiState {
            items: Vec::new(),
            selected_item: 0,
            hovered_item: None,
            needs_repaint: false,
            layout_params: Default::default(),
            layout_computed: Default::default(),
        }
    }
}

impl GuiState {
    /// Ids are unique while tracked, the list and the parameters stay
    /// within the bounds the layout arithmetic needs.
    pub open spec fn wf(&self) -> bool {
        &&& self.items@.len() <= MAX_ITEMS
        &&& forall|i: int, j: int|
            0 <= i < j < self.items@.len() ==> self.items@[i].id != self.items@[j].id
        &&& forall|i: int|
            0 <= i < self.items@.len() ==> (#[trigger] self.items@[i].preview matches Some(p)
                ==> p.width <= MAX_DIM && p.height <= MAX_DIM)
        &&& self.selected_item <= MAX_ITEMS
        &&& self.layout_params.wf()
    }

    fn find_index(&self, id: u32) -> (r: Option<usize>)
        ensures
            match r {
                Some(i) => spec_find_item(self.items@, id) == Some(i as int),
                None => spec_find_item(self.items@, id) is None,
            },
    {
        let mut i: usize = 0;
        while i < self.items.len()
            invariant
                i <= self.items@.len(),
                forall|j: int| 0 <= j < i ==> self.items@[j].id != id,
            decreases self.items@.len() - i,
        {
            if self.items[i].id == id {
                proof {
                    lemma_find_item_props(self.items@, id);
                    match spec_find_item(self.items@, id) {
                        Some(k) => {
                            assert(!(k < i) && !(i < k));
                        }
                        None => {
                            assert(self.items@[i as int].id != id);
                        }
                    }
                }
                return Some(i);
            }
            i = i + 1;
        }
        proof {
            lemma_find_item_props(self.items@, id);
            if let Some(k) = spec_find_item(self.items@, id) {
                assert(self.items@[k].id != id);
            }
        }
        None
    }

    /// Track a new window. New windows join at the end of the
    /// most-recently-used order.
    pub fn add_item(&mut self, id: u32)
        requires
            old(self).wf(),
            old(self).items@.len() < MAX_ITEMS,
            forall|j: int| 0 <= j < old(self).items@.len() ==> old(self).items@[j].id != id,
        ensures
            final(self).wf(),
            final(self).items@.len() == old(self).items@.len() + 1,
            final(self).items@ == old(self).items@.push(final(self).items@.last()),
            final(self).items@.last().id == id,
            final(self).items@.last().title@ == Seq::<char>::empty(),
            final(self).items@.last().app_id@ == Seq::<char>::empty(),
            final(self).items@.last().preview is None,
            final(self).selected_item == old(self).selected_item,
            final(self).hovered_item == old(self).hovered_item,
            final(self).needs_repaint == old(self).needs_repaint,
            final(self).layout_params == old(self).layout_params,
            final(self).layout_computed == old(self).layout_computed,
    {
        self.items.push(Item::new(id));
    }

    /// Give the item with this id a new title; without such an item,
    /// change nothing but still ask for a repaint, as a title event
    /// invalidates whatever was painted.
    pub fn update_item_title(&mut self, id: u32, new_title: String)
        requires
            old(self).wf(),
        ensures
            final(self).wf(),
            final(self).items@.len() == old(self).items@.len(),
            match spec_find_item(old(self).items@, id) {
                Some(i) => final(self).items@ == old(self).items@.update(i, final(self).items@[i])
                    && final(self).items@[i].id == old(self).items@[i].id
                    && final(self).items@[i].title == new_title
                    && final(self).items@[i].app_id == old(self).items@[i].app_id
                    && final(self).items@[i].outputs == old(self).items@[i].outputs
                    && final(self).items@[i].preview == old(self).items@[i].preview,
                None => final(self).items@ == old(self).items@,
            },
            final(self).needs_repaint == true,
            final(self).selected_item == old(self).selected_item,
            final(self).hovered_item == old(self).hovered_item,
            final(self).layout_params == old(self).layout_params,
            final(self).layout_computed == old(self).layout_computed,
    {
        proof {
            lemma_find_item_props(self.items@, id);
        }
        if let Some(i) = self.find_index(id) {
            self.items[i].title = new_title;
        }
        self.needs_repaint = true;
    }

    /// Give the item with this id a new application id; as with titles,
    /// a repaint is asked for either way.
    pub fn update_item_app_id(&mut self, id: u32, new_app_id: String)
        requires
            old(self).wf(),
        ensures
            final(self).wf(),
            final(self).items@.len() == old(self).items@.len(),
            match spec_find_item(old(self).items@, id) {
                Some(i) => final(self).items@ == old(self).items@.update(i, final(self).items@[i])
                    && final(self).items@[i].id == old(self).items@[i].id
                    && final(self).items@[i].title == old(self).items@[i].title
                    && final(self).items@[i].app_id == new_app_id
                    && final(self).items@[i].outputs == old(self).items@[i].outputs
                    && final(self).items@[i].preview == old(self).items@[i].preview,
                None => final(self).items@ == old(self).items@,
            },
            final(self).needs_repaint == true,
            final(self).selected_item == old(self).selected_item,
            final(self).hovered_item == old(self).hovered_item,
            final(self).layout_params == old(self).layout_params,
            final(self).layout_computed == old(self).layout_computed,
    {
        proof {
            lemma_find_item_props(self.items@, id);
        }
        if let Some(i) = self.find_index(id) {
            self.items[i].app_id = new_app_id;
        }
        self.needs_repaint = true;
    }

    /// Record that the window with this id entered an output; the other
    /// items, and everything else about this one, stay as they were.
    pub fn item_output_enter(&mut self, id: u32, output: u32)
        requires
            old(self).wf(),
        ensures
            final(self).wf(),
            final(self).items@.len() == old(self).items@.len(),
            match spec_find_item(old(self).items@, id) {
                Some(i) => final(self).items@ == old(self).items@.update(i, final(self).items@[i])
                    && final(self).items@[i].id == old(self).items@[i].id
                    && final(self).items@[i].title == old(self).items@[i].title
                    && final(self).items@[i].app_id == old(self).items@[i].app_id
                    && final(self).items@[i].preview == old(self).items@[i].preview
                    && final(self).items@[i].outputs@ == old(self).items@[i].outputs@.push(output),
                None => final(self).items@ == old(self).items@,
            },
            final(self).needs_repaint == old(self).needs_repaint,
            final(self).selected_item == old(self).selected_item,
            final(self).hovered_item == old(self).hovered_item,
            final(self).layout_params == old(self).layout_params,
            final(self).layout_computed == old(self).layout_computed,
    {
        proof {
            lemma_find_item_props(self.items@, id);
        }
        if let Some(i) = self.find_index(id) {
            self.items[i].outputs.push(output);
        }
    }

    /// Record that the window with this id left an output: every record
    /// of that output disappears from the item.
    pub fn item_output_leave(&mut self, id: u32, output: u32)
        requires
            old(self).wf(),
        ensures
            final(self).wf(),
            final(self).items@.len() == old(self).items@.len(),
            match spec_find_item(old(self).items@, id) {
                Some(i) => final(self).items@ == old(self).items@.update(i, final(self).items@[i])
                    && final(self).items@[i].id == old(self).items@[i].id
                    && final(self).items@[i].title == old(self).items@[i].title
                    && final(self).items@[i].app_id == old(self).items@[i].app_id
                    && final(self).items@[i].preview == old(self).items@[i].preview
                    && final(self).items@[i].outputs@ == spec_without_output(
                    old(self).items@[i].outputs@,
                    output,
                ),
                None => final(self).items@ == old(self).items@,
            },
            final(self).needs_repaint == old(self).needs_repaint,
            final(self).selected_item == old(self).selected_item,
            final(self).hovered_item == old(self).hovered_item,
            final(self).layout_params == old(self).layout_params,
            final(self).layout_computed == old(self).layout_computed,
    {
        proof {
            lemma_find_item_props(self.items@, id);
        }
        if let Some(i) = self.find_index(id) {
            let ghost before = self.items@[i as int].outputs@;
            let mut kept: Vec<u32> = Vec::new();
            let mut k: usize = 0;
            proof {
                reveal(Seq::filter);
                assert(before.take(0) =~= Seq::<u32>::empty());
            }
            while k < self.items[i].outputs.len()
                invariant
                    i < self.items@.len(),
                    before == self.items@[i as int].outputs@,
                    k <= before.len(),
                    kept@ == spec_without_output(before.take(k as int), output),
                decreases before.len() - k,
            {
                proof {
                    reveal(Seq::filter);
                    assert(before.take(k as int + 1).drop_last() =~= before.take(k as int));
                    assert(before.take(k as int + 1).last() == before[k as int]);
                }
                let o = self.items[i].outputs[k];
                if o != output {
                    kept.push(o);
                }
                k = k + 1;
            }
            proof {
                assert(before.take(before.len() as int) =~= before);
            }
            self.items[i].outputs = kept;
            proof {
                reveal(Seq::filter);
            }
        }
    }

    /// The compositor activated a window: move its item to the front of
    /// the most-recently-used order, keeping the others in order.
    pub fn signal_item_activation(&mut self, id: u32)
        requires
            old(self).wf(),
        ensures
            final(self).wf(),
            match spec_find_item(old(self).items@, id) {
                Some(i) => final(self).items@ == seq![old(self).items@[i]] + old(
                    self,
                ).items@.take(i) + old(self).items@.skip(i + 1) && final(self).needs_repaint
                    == true,
                None => final(self).items@ == old(self).items@ && final(self).needs_repaint == old(
                    self,
                ).needs_repaint,
            },
            final(self).selected_item == old(self).selected_item,
            final(self).hovered_item == old(self).hovered_item,
            final(self).layout_params == old(self).layout_params,
            final(self).layout_computed == old(self).layout_computed,
    {
        proof {
            lemma_find_item_props(self.items@, id);
        }
        if let Some(i) = self.find_index(id) {
            let item = self.items.remove(i);
            self.items.insert(0, item);
            self.needs_repaint = true;
            proof {
                let ghost old_items = old(self).items@;
                let ghost gi = i as int;
                assert(self.items@ =~= seq![old_items[gi]] + old_items.take(gi) + old_items.skip(
                    gi + 1,
                ));
            }
        }
    }

    /// Stop tracking a window. The selection index is left alone, as the
    /// original order of the remaining items is kept.
    pub fn remove_item(&mut self, id: u32)
        requires
            old(self).wf(),
        ensures
            final(self).wf(),
            match spec_find_item(old(self).items@, id) {
                Some(i) => final(self).items@ == old(self).items@.take(i) + old(self).items@.skip(
                    i + 1,
                ),
                None => final(self).items@ == old(self).items@,
            },
            final(self).needs_repaint == true,
            final(self).selected_item == old(self).selected_item,
            final(self).hovered_item == old(self).hovered_item,
            final(self).layout_params == old(self).layout_params,
            final(self).layout_computed == old(self).layout_computed,
    {
        proof {
            lemma_find_item_props(self.items@, id);
        }
        if let Some(i) = self.find_index(id) {
            self.items.remove(i);
            proof {
                assert(self.items@ =~= old(self).items@.take(i as int) + old(self).items@.skip(
                    i as int + 1,
                ));
            }
        }
        self.needs_repaint = true;
    }

    /// The id of the window the layout considers first: the head of the
    /// most-recently-used order.
    pub fn get_first_item_id(&self) -> (r: Option<u32>)
        ensures
            self.items@.len() == 0 ==> r is None,
            self.items@.len() > 0 ==> r == Some(self.items@[0].id),
    {
        if self.items.len() == 0 {
            None
        } else {
            Some(self.items[0].id)
        }
    }

    /// Record a preview for the item with this id. An item that already
    /// has a preview keeps its texture token and only the size changes;
    /// otherwise the fresh token is taken. Without such an item nothing
    /// changes, and the fresh token is reported back as unused.
    pub fn update_item_preview(&mut self, id: u32, width: u32, height: u32, fresh_texture: u64)
        -> (used: bool)
        requires
            old(self).wf(),
            width <= MAX_DIM,
            height <= MAX_DIM,
        ensures
            final(self).wf(),
            final(self).items@.len() == old(self).items@.len(),
            match spec_find_item(old(self).items@, id) {
                Some(i) => final(self).items@ == old(self).items@.update(i, final(self).items@[i])
                    && final(self).items@[i].id == old(self).items@[i].id
                    && final(self).items@[i].title == old(self).items@[i].title
                    && final(self).items@[i].app_id == old(self).items@[i].app_id
                    && final(self).items@[i].outputs == old(self).items@[i].outputs
                    && final(self).items@[i].preview == Some(Preview {
                        texture: match old(self).items@[i].preview {
                            Some(p) => p.texture,
                            None => fresh_texture,
                        },
                        width,
                        height,
                    })
                    && final(self).needs_repaint == true
                    && used == (old(self).items@[i].preview is None),
                None => final(self).items@ == old(self).items@ && final(self).needs_repaint == old(
                    self,
                ).needs_repaint && used == false,
            },
            final(self).selected_item == old(self).selected_item,
            final(self).hovered_item == old(self).hovered_item,
            final(self).layout_params == old(self).layout_params,
            final(self).layout_computed == old(self).layout_computed,
    {
        proof {
            lemma_find_item_props(self.items@, id);
        }
        if let Some(i) = self.find_index(id) {
            let texture: u64 = match &self.items[i].preview {
                Some(p) => p.texture,
                None => fresh_texture,
            };
            let used = self.items[i].preview.is_none();
            self.items[i].preview = Some(Preview { texture, width, height });
            self.needs_repaint = true;
            used
        } else {
            false
        }
    }

    /// The size a preview of an original image should be resized to:
    /// the configured preview height, and the width that keeps the
    /// aspect ratio, clamped into the configured width band.
    pub fn calculate_preview_size(&self, original_size: (u32, u32)) -> (r: (u32, u32))
        requires
            self.wf(),
            original_size.1 > 0,
        ensures
            r.1 == self.layout_params.preview_height,
            r.0 == ({
                let ideal = original_size.0 as int * self.layout_params.preview_height as int
                    / original_size.1 as int;
                if ideal < self.layout_params.preview_min_width {
                    self.layout_params.preview_min_width as int
                } else if ideal > self.layout_params.preview_max_width {
                    self.layout_params.preview_max_width as int
                } else {
                    ideal
                }
            }),
            r.0 <= MAX_DIM,
    {
        let (original_width, original_height) = original_size;
        let preview_height = self.layout_params.preview_height;
        proof {
            assert((original_width as int) * (preview_height as int) <= 0xffff_ffff * 0x4000)
                by (nonlinear_arith)
                requires
                    original_width as int <= 0xffff_ffff,
                    preview_height as int <= 0x4000,
            ;
        }
        let ideal = (original_width as u64) * (preview_height as u64) / (original_height as u64);
        let preview_width: u32 = if ideal < self.layout_params.preview_min_width as u64 {
            self.layout_params.preview_min_width
        } else if ideal > self.layout_params.preview_max_width as u64 {
            self.layout_params.preview_max_width
        } else {
            ideal as u32
        };
        (preview_width, preview_height)
    }

    /// Open the overlay on the item after the current window: the second
    /// item when there are at least two, the sole item when there is one.
    pub fn reset_selected_item(&mut self)
        requires
            old(self).wf(),
        ensures
            final(self).wf(),
            final(self).selected_item == if old(self).items@.len() < 1 {
                old(self).items@.len() as int
            } else {
                1int
            },
            final(self).needs_repaint == true,
            final(self).items@ == old(self).items@,
            final(self).hovered_item == old(self).hovered_item,
            final(self).layout_params == old(self).layout_params,
            final(self).layout_computed == old(self).layout_computed,
    {
        self.selected_item = if self.items.len() < 1 {
            self.items.len()
        } else {
            1
        };
        self.needs_repaint = true;
    }

    pub fn get_selected_item_id(&self) -> (r: Option<u32>)
        ensures
            self.selected_item < self.items@.len() ==> r == Some(
                self.items@[self.selected_item as int].id,
            ),
            self.selected_item >= self.items@.len() ==> r is None,
    {
        if self.selected_item < self.items.len() {
            Some(self.items[self.selected_item].id)
        } else {
            None
        }
    }

    /// Advance the selection by one, wrapping at the end of the list.
    pub fn select_next_item(&mut self)
        requires
            old(self).wf(),
        ensures
            final(self).wf(),
            old(self).items@.len() == 0 ==> *final(self) == *old(self),
            old(self).items@.len() > 0 ==> ({
                &&& final(self).selected_item == (old(self).selected_item + 1) % (old(
                    self,
                ).items@.len() as int)
                &&& final(self).needs_repaint == true
            }),
            final(self).items@ == old(self).items@,
            final(self).hovered_item == old(self).hovered_item,
            final(self).layout_params == old(self).layout_params,
            final(self).layout_computed == old(self).layout_computed,
    {
        if self.items.len() == 0 {
            return;
        }
        self.selected_item = (self.selected_item + 1) % self.items.len();
        self.needs_repaint = true;
    }

    /// Move the selection back by one, wrapping at the front.
    pub fn select_previous_item(&mut self)
        requires
            old(self).wf(),
        ensures
            final(self).wf(),
            old(self).items@.len() == 0 ==> *final(self) == *old(self),
            old(self).items@.len() > 0 ==> ({
                &&& final(self).selected_item == (old(self).selected_item + old(
                    self,
                ).items@.len() as int - 1) % (old(self).items@.len() as int)
                &&& final(self).needs_repaint == true
            }),
            final(self).items@ == old(self).items@,
            final(self).hovered_item == old(self).hovered_item,
            final(self).layout_params == old(self).layout_params,
            final(self).layout_computed == old(self).layout_computed,
    {
        if self.items.len() == 0 {
            return;
        }
        self.selected_item = (self.selected_item + self.items.len() - 1) % self.items.len();
        self.needs_repaint = true;
    }

    /// Record which item the pointer is over; only a change repaints.
    pub fn set_hovered_item(&mut self, index: Option<usize>)
        requires
            old(self).wf(),
        ensures
            final(self).wf(),
            final(self).hovered_item == index,
            old(self).hovered_item != index ==> final(self).needs_repaint == true,
            old(self).hovered_item == index ==> *final(self) == *old(self),
            final(self).items@ == old(self).items@,
            final(self).selected_item == old(self).selected_item,
            final(self).layout_params == old(self).layout_params,
            final(self).layout_computed == old(self).layout_computed,
    {
        let changed = match (&self.hovered_item, &index) {
            (Some(a), Some(b)) => *a != *b,
            (None, None) => false,
            _ => true,
        };
        if changed {
            self.hovered_item = index;
            self.needs_repaint = true;
        } else {
            self.hovered_item = index;
        }
    }

    pub fn needs_repaint(&self) -> (r: bool)
        ensures
            r == self.needs_repaint,
    {
        self.needs_repaint
    }

    pub fn mark_repainted(&mut self)
        ensures
            *final(self) == (GuiState { needs_repaint: false, ..*old(self) }),
    {
        self.needs_repaint = false;
    }

    pub fn get_params(&self) -> (p: &LayoutParams)
        ensures
            p == self.layout_params,
    {
        &self.layout_params
    }

    fn get_item_width(&self, item: &Item) -> (w: u32)
        requires
            self.layout_params.wf(),
            item.preview matches Some(p) ==> p.width <= MAX_DIM,
        ensures
            w == spec_item_width(self.layout_params, *item),
            w <= 5 * MAX_DIM,
    {
        let content_width: u32 = match &item.preview {
            Some(p) => p.width,
            None => self.layout_params.preview_min_width,
        };
        content_width + self.layout_params.item_stroke * 2 + self.layout_params.item_padding * 2
    }

    fn get_item_height(&self) -> (h: u32)
        requires
            self.layout_params.wf(),
        ensures
            h == spec_item_height(self.layout_params),
            h <= 7 * MAX_DIM,
    {
        self.layout_params.title_height + self.layout_params.preview_height
            + self.layout_params.item_vertical_gap + self.layout_params.item_stroke * 2
            + self.layout_params.item_padding * 2
    }

    /// Pack the items into rows, left to right, and compute the window
    /// size and one rectangle per item, rows centered on the longest.
    pub fn calculate_layout(&mut self) -> (r: LayoutResult)
        requires
            old(self).wf(),
        ensures
            final(self).wf(),
            final(self).items@ == old(self).items@,
            final(self).selected_item == old(self).selected_item,
            final(self).hovered_item == old(self).hovered_item,
            final(self).needs_repaint == old(self).needs_repaint,
            final(self).layout_params == old(self).layout_params,
            final(self).layout_computed.window_width == spec_window_width(
                old(self).layout_params,
                old(self).items@,
            ),
            final(self).layout_computed.window_height == spec_window_height(
                old(self).layout_params,
                old(self).items@,
            ),
            final(self).layout_computed.item_rects@ == spec_layout_rects(
                old(self).layout_params,
                old(self).items@,
            ),
            r == (LayoutResult {
                selected_item: old(self).selected_item,
                hovered_item: old(self).hovered_item,
                window_width: final(self).layout_computed.window_width,
                window_height: final(self).layout_computed.window_height,
            }),
    {
        let ghost p = self.layout_params;
        let ghost all_items = self.items@;
        let avail = self.layout_params.window_max_width - self.layout_params.window_padding * 2;
        let hgap = self.layout_params.items_horizontal_gap;
        let vgap = self.layout_params.items_vertical_gap;
        let pad = self.layout_params.window_padding;
        let rh = self.get_item_height();

        // Pass one: greedy packing into rows.
        let mut rows: Vec<(Vec<u32>, u32)> = Vec::new();
        let mut i: usize = 0;
        while i < self.items.len()
            invariant
                self.wf(),
                self.layout_params == p,
                self.items@ == all_items,
                avail == spec_avail(p),
                hgap == p.items_horizontal_gap,
                i <= all_items.len(),
                rows@.len() == spec_pack_rows(p, all_items.take(i as int)).len(),
                forall|k: int|
                    0 <= k < rows@.len() ==> (#[trigger] rows@[k]).0@ == spec_pack_rows(
                        p,
                        all_items.take(i as int),
                    )[k].0 && rows@[k].1 == spec_pack_rows(p, all_items.take(i as int))[k].1,
            decreases all_items.len() - i,
        {
            let ghost rs = spec_pack_rows(p, all_items.take(i as int));
            proof {
                lemma_pack_rows_props(p, all_items.take(i as int));
                assert(all_items.take(i as int + 1).drop_last() =~= all_items.take(i as int));
                assert(all_items.take(i as int + 1).last() == all_items[i as int]);
            }
            let w = self.get_item_width(&self.items[i]);
            let needed = hgap + w;
            let rlen = rows.len();
            if rlen > 0 && rows[rlen - 1].1 + needed <= avail {
                let (mut ws, total) = match rows.pop() {
                    Some(pair) => pair,
                    None => (Vec::new(), 0),
                };
                ws.push(w);
                rows.push((ws, total + needed));
                proof {
                    let rs2 = spec_pack_rows(p, all_items.take(i as int + 1));
                    assert(rs2 == rs.update(
                        rs.len() - 1,
                        (rs.last().0.push(w), (rs.last().1 + needed) as u32),
                    ));
                    assert(rows@[rows@.len() - 1].0@ =~= rs2[rs2.len() - 1].0);
                }
            } else {
                let mut ws: Vec<u32> = Vec::new();
                ws.push(w);
                rows.push((ws, w));
                proof {
                    let rs2 = spec_pack_rows(p, all_items.take(i as int + 1));
                    assert(rs2 == rs.push((seq![w], w)));
                    assert(rows@[rows@.len() - 1].0@ =~= rs2[rs2.len() - 1].0);
                }
            }
            i = i + 1;
        }
        proof {
            assert(all_items.take(all_items.len() as int) =~= all_items);
        }
        let ghost rs = spec_pack_rows(p, all_items);
        proof {
            lemma_pack_rows_props(p, all_items);
        }

        // The longest row decides the window width.
        let mut longest: u32 = 0;
        let mut r_i: usize = 0;
        while r_i < rows.len()
            invariant
                r_i <= rows@.len(),
                rows@.len() == rs.len(),
                forall|k: int|
                    0 <= k < rows@.len() ==> (#[trigger] rows@[k]).0@ == rs[k].0 && rows@[k].1
                        == rs[k].1,
                longest == spec_longest_row(rs.take(r_i as int)),
            decreases rows@.len() - r_i,
        {
            proof {
                assert(rs.take(r_i as int + 1).drop_last() =~= rs.take(r_i as int));
                assert(rs.take(r_i as int + 1).last() == rs[r_i as int]);
            }
            let total = rows[r_i].1;
            if total > longest {
                longest = total;
            }
            r_i = r_i + 1;
        }
        proof {
            assert(rs.take(rs.len() as int) =~= rs);
            lemma_longest_row_props(rs);
        }

        let row_count = rows.len();
        proof {
            assert(row_count as int * spec_item_height(p) <= 4096 * (7 * MAX_DIM as int))
                by (nonlinear_arith)
                requires
                    0 <= row_count as int <= 4096,
                    0 <= spec_item_height(p) <= 7 * MAX_DIM as int,
            ;
            assert((row_count as int - 1) * p.items_vertical_gap as int <= 4096 * MAX_DIM as int)
                by (nonlinear_arith)
                requires
                    0 <= row_count as int <= 4096,
                    0 <= p.items_vertical_gap as int <= MAX_DIM as int,
            ;
        }
        let window_width = longest + pad * 2;
        let tall = (row_count as u64) * (rh as u64);
        let gaps_tall: u64 = if row_count > 0 {
            ((row_count - 1) as u64) * (vgap as u64)
        } else {
            0
        };
        let window_height = (tall + gaps_tall + (pad as u64) * 2) as u32;

        // Pass two: one rectangle per item, each row centered.
        let ghost whole = spec_rows_rects(
            rs,
            spec_longest_row(rs),
            pad as int,
            pad as int,
            spec_item_height(p),
            hgap as int,
            vgap as int,
        );
        let mut rects: Vec<Rect> = Vec::new();
        let mut y: u32 = pad;
        let mut r_i: usize = 0;
        while r_i < rows.len()
            invariant
                self.wf(),
                self.layout_params == p,
                self.items@ == all_items,
                rs == spec_pack_rows(p, all_items),
                r_i <= rows@.len(),
                rows@.len() == rs.len(),
                rs.len() <= all_items.len(),
                forall|k: int|
                    0 <= k < rows@.len() ==> (#[trigger] rows@[k]).0@ == rs[k].0 && rows@[k].1
                        == rs[k].1,
                longest == spec_longest_row(rs),
                hgap == p.items_horizontal_gap,
                vgap == p.items_vertical_gap,
                pad == p.window_padding,
                rh == spec_item_height(p),
                y as int == pad + r_i as int * (rh as int + vgap as int),
                rects@ + spec_rows_rects(
                    rs.skip(r_i as int),
                    longest as int,
                    pad as int,
                    y as int,
                    rh as int,
                    hgap as int,
                    vgap as int,
                ) == whole,
            decreases rows@.len() - r_i,
        {
            proof {
                lemma_pack_rows_props(p, all_items);
                lemma_longest_row_props(rs);
                assert(rs.skip(r_i as int)[0] == rs[r_i as int]);
                assert(rs.skip(r_i as int).skip(1) =~= rs.skip(r_i as int + 1));
                assert(r_i as int * (rh as int + vgap as int) <= 4096 * (8 * MAX_DIM as int))
                    by (nonlinear_arith)
                    requires
                        0 <= r_i as int <= 4096,
                        0 <= rh as int + vgap as int <= 8 * MAX_DIM as int,
                ;
                assert((r_i as int + 1) * (rh as int + vgap as int) == r_i as int * (rh as int
                    + vgap as int) + (rh as int + vgap as int)) by (nonlinear_arith);
            }
            let row_w = rows[r_i].1;
            let mut x: u32 = (longest - row_w) / 2 + pad;
            let ghost x_start = x as int;
            let ghost ws_s = rs[r_i as int].0;
            let ghost rest_rows = spec_rows_rects(
                rs.skip(r_i as int + 1),
                longest as int,
                pad as int,
                y as int + rh as int + vgap as int,
                rh as int,
                hgap as int,
                vgap as int,
            );
            proof {
                assert(ws_s.skip(0) =~= ws_s);
                assert(ws_s.take(0) =~= Seq::<u32>::empty());
                assert(rects@ + spec_row_rects(
                    ws_s,
                    x as int,
                    y as int,
                    rh as int,
                    hgap as int,
                ) + rest_rows =~= rects@ + spec_rows_rects(
                    rs.skip(r_i as int),
                    longest as int,
                    pad as int,
                    y as int,
                    rh as int,
                    hgap as int,
                    vgap as int,
                ));
            }
            let mut k: usize = 0;
            let row_len = rows[r_i].0.len();
            while k < row_len
                invariant
                    self.wf(),
                    self.layout_params == p,
                    self.items@ == all_items,
                    rs == spec_pack_rows(p, all_items),
                    rs.len() <= all_items.len(),
                    r_i < rows@.len(),
                    rows@.len() == rs.len(),
                    forall|kk: int|
                        0 <= kk < rows@.len() ==> (#[trigger] rows@[kk]).0@ == rs[kk].0
                            && rows@[kk].1 == rs[kk].1,
                    ws_s == rs[r_i as int].0,
                    row_len == ws_s.len(),
                    k <= row_len,
                    hgap == p.items_horizontal_gap,
                    rh == spec_item_height(p),
                    x as int == x_start + spec_row_total(ws_s.take(k as int), hgap as int),
                    0 <= x_start <= 2 * MAX_DIM + 5 * MAX_DIM,
                    y as int + rh as int <= u32::MAX,
                    rects@ + spec_row_rects(
                        ws_s.skip(k as int),
                        x as int,
                        y as int,
                        rh as int,
                        hgap as int,
                    ) + rest_rows == whole,
                decreases row_len - k,
            {
                proof {
                    lemma_pack_rows_props(p, all_items);
                    assert(rs[r_i as int].0.len() <= all_items.len());
                    assert(ws_s.skip(k as int)[0] == ws_s[k as int]);
                    assert(ws_s.skip(k as int).skip(1) =~= ws_s.skip(k as int + 1));
                    assert(ws_s.take(k as int + 1).drop_last() =~= ws_s.take(k as int));
                    assert(ws_s.take(k as int + 1).last() == ws_s[k as int]);
                    assert(forall|j: int|
                        0 <= j < ws_s.take(k as int + 1).len() ==> ws_s.take(k as int + 1)[j]
                            == ws_s[j]);
                    lemma_row_total_bounds(ws_s.take(k as int + 1), hgap as int, 5 * MAX_DIM as int);
                    assert(ws_s.take(k as int + 1).len() * (5 * MAX_DIM as int + hgap as int)
                        <= 4096 * (6 * MAX_DIM as int)) by (nonlinear_arith)
                        requires
                            0 <= ws_s.take(k as int + 1).len() <= 4096,
                            0 <= 5 * MAX_DIM as int + hgap as int <= 6 * MAX_DIM as int,
                    ;
                    assert(spec_row_total(ws_s.take(k as int + 1), hgap as int) == spec_row_total(
                        ws_s.take(k as int),
                        hgap as int,
                    ) + ws_s[k as int] + hgap as int);
                }
                let w = rows[r_i].0[k];
                let ghost rects_before = rects@;
                let ghost x_before = x as int;
                rects.push(Rect { x0: x, y0: y, x1: x + w, y1: y + rh });
                x = x + w + hgap;
                k = k + 1;
                proof {
                    assert(spec_row_rects(
                        ws_s.skip(k - 1),
                        x_before,
                        y as int,
                        rh as int,
                        hgap as int,
                    ) =~= seq![
                        Rect {
                            x0: x_before as u32,
                            y0: y,
                            x1: (x_before + ws_s[k - 1]) as u32,
                            y1: (y + rh) as u32,
                        },
                    ] + spec_row_rects(
                        ws_s.skip(k as int),
                        x as int,
                        y as int,
                        rh as int,
                        hgap as int,
                    ));
                    assert(rects@ + spec_row_rects(
                        ws_s.skip(k as int),
                        x as int,
                        y as int,
                        rh as int,
                        hgap as int,
                    ) + rest_rows =~= rects_before + spec_row_rects(
                        ws_s.skip(k - 1),
                        x_before,
                        y as int,
                        rh as int,
                        hgap as int,
                    ) + rest_rows);
                }
            }
            proof {
                assert(ws_s.skip(row_len as int) =~= Seq::<u32>::empty());
                assert(spec_row_rects(
                    ws_s.skip(row_len as int),
                    x as int,
                    y as int,
                    rh as int,
                    hgap as int,
                ) =~= Seq::<Rect>::empty());
                assert(rects@ + spec_row_rects(
                    ws_s.skip(row_len as int),
                    x as int,
                    y as int,
                    rh as int,
                    hgap as int,
                ) + rest_rows =~= rects@ + rest_rows);
                assert(rects@ + rest_rows == whole);
            }
            y = y + rh + vgap;
            r_i = r_i + 1;
        }
        proof {
            assert(rs.skip(rs.len() as int) =~= Seq::<(Seq<u32>, u32)>::empty());
            assert(rects@ =~= whole);
        }

        self.layout_computed = LayoutComputed { window_width, window_height, item_rects: rects };
        LayoutResult {
            selected_item: self.selected_item,
            hovered_item: self.hovered_item,
            window_width,
            window_height,
        }
    }
}

/// The horizontal room a row may fill.
pub open spec fn spec_avail(p: LayoutParams) -> int {
    p.window_max_width - 2 * p.window_padding
}

/// The width one item occupies: its preview width, or the minimum
/// preview width while no preview arrived, plus stroke and padding.
pub open spec fn spec_item_width(p: LayoutParams, it: Item) -> int {
    (match it.preview {
        Some(pv) => pv.width as int,
        None => p.preview_min_width as int,
    }) + 2 * p.item_stroke + 2 * p.item_padding
}

/// The height every item occupies.
pub open spec fn spec_item_height(p: LayoutParams) -> int {
    p.title_height + p.preview_height + p.item_vertical_gap + 2 * p.item_stroke + 2
        * p.item_padding
}

/// Greedy left-to-right packing of item widths into rows. Each row is
/// its widths and its total width, gaps between items included. A new
/// item joins the last row when it still fits the available width.
pub open spec fn spec_pack_rows(p: LayoutParams, items: Seq<Item>) -> Seq<(Seq<u32>, u32)>
    decreases items.len(),
{
    if items.len() == 0 {
        Seq::empty()
    } else {
        let prev = spec_pack_rows(p, items.drop_last());
        let w = spec_item_width(p, items.last());
        let needed = p.items_horizontal_gap + w;
        if prev.len() > 0 && prev.last().1 + needed <= spec_avail(p) {
            prev.update(prev.len() - 1, (prev.last().0.push(w as u32), (prev.last().1 + needed) as u32))
        } else {
            prev.push((seq![w as u32], w as u32))
        }
    }
}

/// The widest row's total width; zero without rows.
pub open spec fn spec_longest_row(rows: Seq<(Seq<u32>, u32)>) -> int
    decreases rows.len(),
{
    if rows.len() == 0 {
        0
    } else {
        let rest = spec_longest_row(rows.drop_last());
        if rows.last().1 > rest {
            rows.last().1 as int
        } else {
            rest
        }
    }
}

/// The width the packed rows give the window.
pub open spec fn spec_window_width(p: LayoutParams, items: Seq<Item>) -> int {
    spec_longest_row(spec_pack_rows(p, items)) + 2 * p.window_padding
}

/// The height the packed rows give the window.
pub open spec fn spec_window_height(p: LayoutParams, items: Seq<Item>) -> int {
    let n = spec_pack_rows(p, items).len();
    n * spec_item_height(p) + (if n > 0 {
        (n - 1) * p.items_vertical_gap
    } else {
        0
    }) + 2 * p.window_padding
}

/// The rectangles of one row, left to right from `x`.
pub open spec fn spec_row_rects(widths: Seq<u32>, x: int, y: int, height: int, gap: int) -> Seq<
    Rect,
>
    decreases widths.len(),
{
    if widths.len() == 0 {
        Seq::empty()
    } else {
        seq![
            Rect {
                x0: x as u32,
                y0: y as u32,
                x1: (x + widths[0]) as u32,
                y1: (y + height) as u32,
            },
        ] + spec_row_rects(widths.skip(1), x + widths[0] + gap, y, height, gap)
    }
}

/// The rectangles of all rows, each row centered on the longest one.
pub open spec fn spec_rows_rects(
    rows: Seq<(Seq<u32>, u32)>,
    longest: int,
    pad: int,
    y: int,
    row_height: int,
    hgap: int,
    vgap: int,
) -> Seq<Rect>
    decreases rows.len(),
{
    if rows.len() == 0 {
        Seq::empty()
    } else {
        spec_row_rects(rows[0].0, (longest - rows[0].1) / 2 + pad, y, row_height, hgap)
            + spec_rows_rects(
            rows.skip(1),
            longest,
            pad,
            y + row_height + vgap,
            row_height,
            hgap,
            vgap,
        )
    }
}

/// The rectangles a layout pass computes for the given items.
pub open spec fn spec_layout_rects(p: LayoutParams, items: Seq<Item>) -> Seq<Rect> {
    let rows = spec_pack_rows(p, items);
    spec_rows_rects(
        rows,
        spec_longest_row(rows),
        p.window_padding as int,
        p.window_padding as int,
        spec_item_height(p),
        p.items_horizontal_gap as int,
        p.items_vertical_gap as int,
    )
}

/// The room a row's widths take from `x`: every item adds its width and
/// one gap.
pub open spec fn spec_row_total(widths: Seq<u32>, gap: int) -> int
    decreases widths.len(),
{
    if widths.len() == 0 {
        0
    } else {
        spec_row_total(widths.drop_last(), gap) + widths.last() + gap
    }
}

/// A row's total room is nonnegative and at most one width-plus-gap per
/// item, and growing the prefix grows the total.
pub proof fn lemma_row_total_bounds(widths: Seq<u32>, gap: int, wmax: int)
    requires
        gap >= 0,
        forall|j: int| 0 <= j < widths.len() ==> widths[j] <= wmax,
        wmax >= 0,
    ensures
        0 <= spec_row_total(widths, gap),
        spec_row_total(widths, gap) <= widths.len() * (wmax + gap),
    decreases widths.len(),
{
    if widths.len() > 0 {
        lemma_row_total_bounds(widths.drop_last(), gap, wmax);
        assert((widths.len() - 1) * (wmax + gap) + (wmax + gap) == widths.len() * (wmax + gap))
            by (nonlinear_arith);
    }
}

/// Under well-formed parameters and bounded previews, packing keeps
/// every quantity small: no more rows than items, no empty row, every
/// width and every row total bounded, and rows only ever grow by one.
pub proof fn lemma_pack_rows_props(p: LayoutParams, items: Seq<Item>)
    requires
        p.wf(),
        forall|i: int|
            0 <= i < items.len() ==> (#[trigger] items[i].preview matches Some(pv) ==> pv.width
                <= MAX_DIM),
    ensures
        ({
            let rows = spec_pack_rows(p, items);
            &&& rows.len() <= items.len()
            &&& forall|k: int| 0 <= k < rows.len() ==> 1 <= (#[trigger] rows[k]).0.len()
            &&& forall|k: int| 0 <= k < rows.len() ==> (#[trigger] rows[k]).0.len() <= items.len()
            &&& forall|k: int| 0 <= k < rows.len() ==> (#[trigger] rows[k]).1 <= 5 * MAX_DIM as int
            &&& forall|k: int, j: int|
                0 <= k < rows.len() && 0 <= j < rows[k].0.len() ==> (#[trigger] rows[k].0[j]) <= 5
                    * MAX_DIM as int
        }),
    decreases items.len(),
{
    if items.len() > 0 {
        lemma_pack_rows_props(p, items.drop_last());
        let prev = spec_pack_rows(p, items.drop_last());
        let w = spec_item_width(p, items.last());
        assert(items.last().preview matches Some(pv) ==> pv.width <= MAX_DIM);
        assert(0 <= w <= 5 * MAX_DIM as int);
        let rows = spec_pack_rows(p, items);
        let needed = p.items_horizontal_gap + w;
        if prev.len() > 0 && prev.last().1 + needed <= spec_avail(p) {
            assert(prev.last().1 + needed <= MAX_DIM as int);
            assert(forall|k: int|
                0 <= k < rows.len() - 1 ==> #[trigger] rows[k] == prev[k]);
            assert(rows[rows.len() - 1].0 == prev.last().0.push(w as u32));
        } else {
            assert(forall|k: int|
                0 <= k < rows.len() - 1 ==> #[trigger] rows[k] == prev[k]);
        }
    }
}

/// How many items the packed rows hold altogether.
pub open spec fn spec_rows_item_count(rows: Seq<(Seq<u32>, u32)>) -> int
    decreases rows.len(),
{
    if rows.len() == 0 {
        0
    } else {
        rows[0].0.len() + spec_rows_item_count(rows.skip(1))
    }
}

proof fn lemma_count_push(rows: Seq<(Seq<u32>, u32)>, row: (Seq<u32>, u32))
    ensures
        spec_rows_item_count(rows.push(row)) == spec_rows_item_count(rows) + row.0.len(),
    decreases rows.len(),
{
    if rows.len() == 0 {
        assert(rows.push(row)[0] == row);
        assert(rows.push(row).skip(1) =~= Seq::<(Seq<u32>, u32)>::empty());
        assert(spec_rows_item_count(Seq::<(Seq<u32>, u32)>::empty()) == 0);
    } else {
        assert(rows.push(row)[0] == rows[0]);
        assert(rows.push(row).skip(1) =~= rows.skip(1).push(row));
        lemma_count_push(rows.skip(1), row);
    }
}

proof fn lemma_count_update_last(rows: Seq<(Seq<u32>, u32)>, row: (Seq<u32>, u32))
    requires
        rows.len() > 0,
    ensures
        spec_rows_item_count(rows.update(rows.len() - 1, row)) == spec_rows_item_count(rows)
            - rows.last().0.len() + row.0.len(),
    decreases rows.len(),
{
    if rows.len() == 1 {
        assert(rows.update(0, row)[0] == row);
        assert(rows.update(0, row).skip(1) =~= Seq::<(Seq<u32>, u32)>::empty());
        assert(rows.skip(1) =~= Seq::<(Seq<u32>, u32)>::empty());
        assert(spec_rows_item_count(Seq::<(Seq<u32>, u32)>::empty()) == 0);
    } else {
        assert(rows.update(rows.len() - 1, row)[0] == rows[0]);
        assert(rows.update(rows.len() - 1, row).skip(1) =~= rows.skip(1).update(
            rows.skip(1).len() - 1,
            row,
        ));
        lemma_count_update_last(rows.skip(1), row);
    }
}

proof fn lemma_pack_rows_count(p: LayoutParams, items: Seq<Item>)
    ensures
        spec_rows_item_count(spec_pack_rows(p, items)) == items.len(),
    decreases items.len(),
{
    if items.len() > 0 {
        lemma_pack_rows_count(p, items.drop_last());
        let prev = spec_pack_rows(p, items.drop_last());
        let w = spec_item_width(p, items.last());
        let needed = p.items_horizontal_gap + w;
        if prev.len() > 0 && prev.last().1 + needed <= spec_avail(p) {
            lemma_count_update_last(
                prev,
                (prev.last().0.push(w as u32), (prev.last().1 + needed) as u32),
            );
        } else {
            lemma_count_push(prev, (seq![w as u32], w as u32));
        }
    }
}

proof fn lemma_row_rects_len(widths: Seq<u32>, x: int, y: int, height: int, gap: int)
    ensures
        spec_row_rects(widths, x, y, height, gap).len() == widths.len(),
    decreases widths.len(),
{
    if widths.len() > 0 {
        lemma_row_rects_len(widths.skip(1), x + widths[0] + gap, y, height, gap);
    }
}

proof fn lemma_rows_rects_len(
    rows: Seq<(Seq<u32>, u32)>,
    longest: int,
    pad: int,
    y: int,
    row_height: int,
    hgap: int,
    vgap: int,
)
    ensures
        spec_rows_rects(rows, longest, pad, y, row_height, hgap, vgap).len()
            == spec_rows_item_count(rows),
    decreases rows.len(),
{
    if rows.len() > 0 {
        lemma_row_rects_len(rows[0].0, (longest - rows[0].1) / 2 + pad, y, row_height, hgap);
        lemma_rows_rects_len(
            rows.skip(1),
            longest,
            pad,
            y + row_height + vgap,
            row_height,
            hgap,
            vgap,
        );
    }
}

/// The layout hands out exactly one rectangle per item, whatever the
/// parameters and however the rows break.
pub proof fn lemma_one_rect_per_item(p: LayoutParams, items: Seq<Item>)
    ensures
        spec_layout_rects(p, items).len() == items.len(),
{
    lemma_pack_rows_count(p, items);
    let rows = spec_pack_rows(p, items);
    lemma_rows_rects_len(
        rows,
        spec_longest_row(rows),
        p.window_padding as int,
        p.window_padding as int,
        spec_item_height(p),
        p.items_horizontal_gap as int,
        p.items_vertical_gap as int,
    );
}

/// The longest row is at least every row, and is some row's total when
/// any row exists.
pub proof fn lemma_longest_row_props(rows: Seq<(Seq<u32>, u32)>)
    ensures
        spec_longest_row(rows) >= 0,
        forall|k: int| 0 <= k < rows.len() ==> (#[trigger] rows[k]).1 <= spec_longest_row(rows),
        rows.len() > 0 ==> exists|k: int|
            0 <= k < rows.len() && spec_longest_row(rows) == rows[k].1,
    decreases rows.len(),
{
    if rows.len() > 0 {
        lemma_longest_row_props(rows.drop_last());
        let rest = spec_longest_row(rows.drop_last());
        assert forall|k: int| 0 <= k < rows.len() implies (#[trigger] rows[k]).1
            <= spec_longest_row(rows) by {
            if k < rows.len() - 1 {
                assert(rows.drop_last()[k] == rows[k]);
                assert(rows.drop_last()[k].1 <= rest);
            }
        }
        if rows.last().1 > rest {
            assert(spec_longest_row(rows) == rows[rows.len() - 1].1);
        } else {
            if rows.len() == 1 {
                assert(spec_longest_row(rows) == rows[0].1);
            }
            if rows.len() > 1 {
                let k = choose|k: int|
                    0 <= k < rows.len() - 1 && spec_longest_row(rows.drop_last()) == rows.drop_last()[k].1;
                assert(rows.drop_last()[k] == rows[k]);
                assert(spec_longest_row(rows) == rows[k].1);
            }
        }
    }
}

} // verus!
