//! The D2 diagrams of a document: which are rendered, which pictures are kept, and which are let
//! go.

use crate::cache::{
    completed, images_of, lasting_image, pending, reachable_images, CachedD2Diagram, Completion,
    D2DiagramCache, DiagramError, RenderImage,
};
use crate::d2_render::{locate, theme_for};
use crate::markdown::{diagram_views, document_order, ParsedMarkdown};
use crate::paths::{
    as_path, clone_path, optional_path_bytes, path_buf_bytes, same_bytes, search_may_end,
};
use crate::settings::{same_settings, D2Settings, D2SettingsView};
use crate::text::{clone_strings, same_texts, texts};
use std::path::PathBuf;
use vstd::prelude::*;
use vstd::utf8::encode_utf8;

verus! {

/// The D2 diagrams of a document.
#[derive(Debug)]
pub struct D2State {
    pub cache: D2DiagramCache,
    /// The texts of the diagrams in the order in which they stand in the document.
    pub order: Vec<String>,
    /// The settings that the cached diagrams were rendered with.
    pub settings: D2Settings,
    /// The `d2` binary that the cached diagrams were rendered with, found by the settings. `None`
    /// means that D2 isn't installed, so diagrams are left as ordinary code blocks.
    pub binary: Option<PathBuf>,
    /// Whether `binary` has been looked for with the current settings. Looking touches the file
    /// system, so it is only done again when the settings change.
    pub binary_resolved: bool,
}

/// The D2 diagrams of a document, over texts and bytes.
#[verifier::ext_equal]
pub struct D2StateView {
    pub cache: Map<Seq<char>, CachedD2Diagram>,
    pub order: Seq<Seq<char>>,
    pub settings: D2SettingsView,
    pub binary: Option<Seq<u8>>,
    pub binary_resolved: bool,
}

impl View for D2State {
    type V = D2StateView;

    open spec fn view(&self) -> D2StateView {
        D2StateView {
            cache: self.cache@,
            order: texts(self.order@),
            settings: self.settings@,
            binary: optional_path_bytes(self.binary),
            binary_resolved: self.binary_resolved,
        }
    }
}

/// The cache holds a diagram for each text in the document, and for no other.
pub open spec fn consistent(state: D2StateView) -> bool {
    forall|contents: Seq<char>| #[trigger]
        state.cache.contains_key(contents) <==> state.order.contains(contents)
}

/// A diagram that is to be rendered.
#[derive(Debug)]
pub struct RenderJob {
    pub contents: String,
    pub binary: PathBuf,
    pub arguments: Vec<String>,
    /// The built-in D2 theme to render with.
    pub theme: u32,
}

/// A diagram that is to be rendered, over texts and bytes.
#[verifier::ext_equal]
pub struct RenderJobView {
    pub contents: Seq<char>,
    pub binary: Seq<u8>,
    pub arguments: Seq<Seq<char>>,
    pub theme: u32,
}

impl View for RenderJob {
    type V = RenderJobView;

    open spec fn view(&self) -> RenderJobView {
        RenderJobView {
            contents: self.contents@,
            binary: path_buf_bytes(self.binary),
            arguments: texts(self.arguments@),
            theme: self.theme,
        }
    }
}

/// What is to be done after the document has changed.
#[derive(Debug)]
pub struct UpdateOutcome {
    /// The diagrams to render, in the order in which they stand in the document. Rendering that is
    /// still under way for one of these texts, or for a text that the document no longer has, is
    /// to be called off.
    pub started: Vec<RenderJob>,
    /// The pictures that the host is to drop.
    pub dropped: Vec<RenderImage>,
}

/// The picture to show for the diagram at `index` until it is rendered: the one shown for the
/// diagram at the same place before, if the number of diagrams has not changed.
pub open spec fn fallback_for(
    index: int,
    old_order: Seq<Seq<char>>,
    new_order_len: nat,
    cache: Map<Seq<char>, CachedD2Diagram>,
) -> Option<RenderImage> {
    if old_order.len() == new_order_len && index < old_order.len() && cache.contains_key(
        old_order[index],
    ) {
        lasting_image(cache[old_order[index]])
    } else {
        None
    }
}

/// Whether `index` is where `contents` stands first in `order`.
pub open spec fn is_first(order: Seq<Seq<char>>, contents: Seq<char>, index: int) -> bool {
    &&& 0 <= index < order.len()
    &&& order[index] == contents
    &&& forall|i: int| 0 <= i < index ==> order[i] != contents
}

/// Where `contents` stands first in `order`.
pub open spec fn first_at(order: Seq<Seq<char>>, contents: Seq<char>) -> int {
    choose|index: int| is_first(order, contents, index)
}

/// Whether diagrams that were rendered before can be kept: the settings and the `d2` binary are
/// those that they were rendered with.
pub open spec fn reusable(
    state: D2StateView,
    settings: D2SettingsView,
    binary: Option<Seq<u8>>,
) -> bool {
    same_settings(settings, state.settings) && binary is Some && binary == state.binary
}

/// The diagrams that can be kept if they are still in the document.
pub open spec fn kept_cache(
    state: D2StateView,
    settings: D2SettingsView,
    binary: Option<Seq<u8>>,
) -> Map<Seq<char>, CachedD2Diagram> {
    if reusable(state, settings, binary) {
        state.cache
    } else {
        Map::empty()
    }
}

/// What the cache holds for a text of the document that is now in `order`: what it held before, if
/// that can be kept, or a diagram that has just begun to render.
pub open spec fn entry_after(
    state: D2StateView,
    order: Seq<Seq<char>>,
    settings: D2SettingsView,
    binary: Option<Seq<u8>>,
    contents: Seq<char>,
) -> CachedD2Diagram {
    if kept_cache(state, settings, binary).contains_key(contents) {
        state.cache[contents]
    } else {
        pending(
            fallback_for(first_at(order, contents), state.order, order.len(), state.cache),
        )
    }
}

/// The cache once the document's diagrams are those in `order`.
pub open spec fn cache_after(
    state: D2StateView,
    order: Seq<Seq<char>>,
    settings: D2SettingsView,
    binary: Option<Seq<u8>>,
) -> Map<Seq<char>, CachedD2Diagram> {
    Map::new(
        |contents: Seq<char>| order.contains(contents),
        |contents: Seq<char>| entry_after(state, order, settings, binary, contents),
    )
}

/// The diagrams once the document's diagrams are those in `order`, under `settings`, with the
/// `d2` binary that was found for them. Without a binary there are none.
pub open spec fn state_after(
    state: D2StateView,
    order: Seq<Seq<char>>,
    settings: D2SettingsView,
    binary: Option<Seq<u8>>,
) -> D2StateView {
    D2StateView {
        cache: if binary is Some {
            cache_after(state, order, settings, binary)
        } else {
            Map::empty()
        },
        order: if binary is Some {
            order
        } else {
            Seq::empty()
        },
        settings,
        binary,
        binary_resolved: true,
    }
}

/// The places among the first `n` of `order` where a text stands first that is not in the cache.
pub open spec fn fresh_places(
    cache: Map<Seq<char>, CachedD2Diagram>,
    order: Seq<Seq<char>>,
    n: nat,
) -> Seq<int>
    decreases n,
{
    if n == 0 {
        Seq::empty()
    } else {
        let before = fresh_places(cache, order, (n - 1) as nat);
        let contents = order[n - 1];
        if !cache.contains_key(contents) && is_first(order, contents, n - 1) {
            before.push(n - 1)
        } else {
            before
        }
    }
}

/// The diagram at `place` as it is to be rendered.
pub open spec fn job_at(
    order: Seq<Seq<char>>,
    arguments: Seq<Seq<char>>,
    binary: Seq<u8>,
    theme: u32,
    place: int,
) -> RenderJobView {
    RenderJobView { contents: order[place], binary, arguments, theme }
}

/// The diagrams to render once the document's diagrams are those in `order`: each text for which no
/// diagram is kept, once.
pub open spec fn jobs_for(
    state: D2StateView,
    order: Seq<Seq<char>>,
    settings: D2SettingsView,
    binary: Option<Seq<u8>>,
    is_light: bool,
) -> Seq<RenderJobView> {
    let theme = if is_light {
        0u32
    } else {
        200u32
    };
    match binary {
        Some(path) => fresh_places(
            kept_cache(state, settings, binary),
            order,
            order.len(),
        ).map_values(|place: int| job_at(order, settings.arguments, path, theme, place)),
        None => Seq::empty(),
    }
}

/// The diagrams to render, over texts and bytes.
pub open spec fn job_views(jobs: Seq<RenderJob>) -> Seq<RenderJobView> {
    jobs.map_values(|job: RenderJob| job@)
}

/// Whether a job renders with the binary and the arguments that diagrams are rendered with now.
pub open spec fn is_current(state: D2StateView, job: RenderJobView) -> bool {
    job.arguments == state.settings.arguments && state.binary == Some(job.binary)
}

/// Whether there is a diagram that an outcome of `job` is for.
pub open spec fn is_awaited(state: D2StateView, job: RenderJobView) -> bool {
    is_current(state, job) && state.cache.contains_key(job.contents)
}

/// The diagrams once an outcome of `job` has been taken in. One that nothing waits for changes
/// nothing.
pub open spec fn state_with_outcome(
    state: D2StateView,
    job: RenderJobView,
    result: Result<RenderImage, DiagramError>,
) -> D2StateView {
    if is_awaited(state, job) {
        D2StateView {
            cache: state.cache.insert(
                job.contents,
                completed(state.cache[job.contents], result),
            ),
            ..state
        }
    } else {
        state
    }
}

/// The pictures to drop when one cache takes the place of another: those that no diagram holds on
/// to any more.
pub open spec fn images_let_go(
    before: Map<Seq<char>, CachedD2Diagram>,
    after: Map<Seq<char>, CachedD2Diagram>,
) -> Set<RenderImage> {
    reachable_images(before).difference(reachable_images(after))
}

/// Whether the binary is to be looked for: it has not been yet, or the settings have changed.
pub open spec fn needs_search(state: D2StateView, settings: D2SettingsView) -> bool {
    !state.binary_resolved || !same_settings(settings, state.settings)
}

/// What a search for the binary looks for: the configured path, or else `d2`.
pub open spec fn searched_binary(settings: D2SettingsView) -> Seq<u8> {
    match settings.path {
        Some(path) => path,
        None => encode_utf8("d2"@),
    }
}

/// Where a text stands first there is only one place for.
pub proof fn lemma_first_at(order: Seq<Seq<char>>, contents: Seq<char>, index: int)
    requires
        is_first(order, contents, index),
    ensures
        first_at(order, contents) == index,
{
    let chosen = first_at(order, contents);
    assert(is_first(order, contents, chosen));
    if chosen < index {
        assert(order[chosen] != contents);
    } else if index < chosen {
        assert(order[index] != contents);
    }
}

/// A text that stands somewhere stands somewhere first.
pub proof fn lemma_first_exists(order: Seq<Seq<char>>, contents: Seq<char>, index: int)
    requires
        0 <= index < order.len(),
        order[index] == contents,
    ensures
        is_first(order, contents, first_at(order, contents)),
    decreases index,
{
    if exists|i: int| 0 <= i < index && order[i] == contents {
        let i = choose|i: int| 0 <= i < index && order[i] == contents;
        lemma_first_exists(order, contents, i);
    } else {
        assert(is_first(order, contents, index));
        lemma_first_at(order, contents, index);
    }
}

/// Jobs seen with the theme that the editor asks for have that theme.
proof fn lemma_themes(
    started: Seq<RenderJob>,
    state: D2StateView,
    order: Seq<Seq<char>>,
    settings: D2SettingsView,
    binary: Option<Seq<u8>>,
    is_light: bool,
)
    requires
        job_views(started) == jobs_for(state, order, settings, binary, is_light),
    ensures
        forall|i: int|
            0 <= i < started.len() ==> (#[trigger] started[i]).theme == (if is_light {
                0u32
            } else {
                200u32
            }),
{
    assert forall|i: int| 0 <= i < started.len() implies (#[trigger] started[i]).theme == (
    if is_light {
        0u32
    } else {
        200u32
    }) by {
        let jobs = jobs_for(state, order, settings, binary, is_light);
        assert(job_views(started)[i] == started[i]@);
        assert(jobs.len() == started.len());
        assert(jobs[i].theme == started[i].theme);
    }
}

/// A cache with an entry put in for each text in `present` that it did not have: a diagram that has
/// just begun to render, with the picture for the place where the text stands first in `order`.
spec fn filled(
    cache: Map<Seq<char>, CachedD2Diagram>,
    present: Seq<Seq<char>>,
    order: Seq<Seq<char>>,
    fallback_images: Seq<Option<RenderImage>>,
) -> Map<Seq<char>, CachedD2Diagram> {
    Map::new(
        |contents: Seq<char>| cache.contains_key(contents) || present.contains(contents),
        |contents: Seq<char>|
            if cache.contains_key(contents) {
                cache[contents]
            } else {
                pending(fallback_images[first_at(order, contents)])
            },
    )
}

/// The pictures of the diagrams that leave a cache, but for those that are protected, are those
/// that are let go.
proof fn lemma_let_go(
    before: Map<Seq<char>, CachedD2Diagram>,
    kept: Map<Seq<char>, CachedD2Diagram>,
    discarded: Map<Seq<char>, CachedD2Diagram>,
    middle: Map<Seq<char>, CachedD2Diagram>,
    after: Map<Seq<char>, CachedD2Diagram>,
    order: Seq<Seq<char>>,
    protected: Seq<RenderImage>,
    dropped: Seq<RenderImage>,
)
    requires
        (kept == before && discarded == Map::<Seq<char>, CachedD2Diagram>::empty()) || (discarded
            == before && kept == Map::<Seq<char>, CachedD2Diagram>::empty()),
        forall|contents: Seq<char>| #[trigger]
            middle.contains_key(contents) <==> kept.contains_key(contents) || order.contains(
                contents,
            ),
        forall|contents: Seq<char>| #[trigger]
            kept.contains_key(contents) ==> middle[contents] == kept[contents],
        after == middle.restrict(Set::new(|contents: Seq<char>| order.contains(contents))),
        forall|image: RenderImage| #[trigger]
            protected.contains(image) <==> exists|contents: Seq<char>|
                #![trigger middle[contents]]
                middle.contains_key(contents) && order.contains(contents) && images_of(
                    middle[contents],
                ).contains(image),
        forall|image: RenderImage| #[trigger]
            dropped.contains(image) <==> !protected.contains(image) && ((exists|
                contents: Seq<char>,
            |
                #![trigger middle[contents]]
                middle.contains_key(contents) && !order.contains(contents) && images_of(
                    middle[contents],
                ).contains(image)) || (exists|contents: Seq<char>|
                #![trigger discarded[contents]]
                discarded.contains_key(contents) && images_of(discarded[contents]).contains(
                    image,
                ))),
    ensures
        dropped.to_set() == images_let_go(before, after),
{
    assert forall|image: RenderImage|
        #![trigger dropped.to_set().contains(image)]
        dropped.to_set().contains(image) <==> images_let_go(before, after).contains(image) by {
        assert(protected.contains(image) <==> reachable_images(after).contains(image)) by {
            if protected.contains(image) {
                let contents = choose|contents: Seq<char>|
                    #![trigger middle[contents]]
                    middle.contains_key(contents) && order.contains(contents) && images_of(
                        middle[contents],
                    ).contains(image);
                assert(after[contents] == middle[contents]);
            }
            if reachable_images(after).contains(image) {
                let contents = choose|contents: Seq<char>|
                    #![trigger after[contents]]
                    after.contains_key(contents) && images_of(after[contents]).contains(image);
                assert(after[contents] == middle[contents]);
            }
        }
        if dropped.contains(image) {
            if exists|contents: Seq<char>|
                #![trigger middle[contents]]
                middle.contains_key(contents) && !order.contains(contents) && images_of(
                    middle[contents],
                ).contains(image) {
                let contents = choose|contents: Seq<char>|
                    #![trigger middle[contents]]
                    middle.contains_key(contents) && !order.contains(contents) && images_of(
                        middle[contents],
                    ).contains(image);
                assert(kept.contains_key(contents));
                assert(before[contents] == middle[contents]);
            } else {
                let contents = choose|contents: Seq<char>|
                    #![trigger discarded[contents]]
                    discarded.contains_key(contents) && images_of(discarded[contents]).contains(
                        image,
                    );
                assert(before[contents] == discarded[contents]);
            }
        }
        if reachable_images(before).contains(image) && !reachable_images(after).contains(image) {
            let contents = choose|contents: Seq<char>|
                #![trigger before[contents]]
                before.contains_key(contents) && images_of(before[contents]).contains(image);
            if kept.contains_key(contents) {
                assert(middle[contents] == before[contents]);
                if order.contains(contents) {
                    assert(after[contents] == before[contents]);
                }
            } else {
                assert(discarded[contents] == before[contents]);
            }
        }
    }
    assert(dropped.to_set() =~= images_let_go(before, after));
}

impl Default for D2State {
    fn default() -> (r: Self)
        ensures
            r.wf(),
            r@ == (D2StateView {
                cache: Map::empty(),
                order: Seq::empty(),
                settings: D2SettingsView { path: None, arguments: Seq::empty() },
                binary: None,
                binary_resolved: false,
            }),
    {
        let r = D2State {
            cache: D2DiagramCache::new(),
            order: Vec::new(),
            settings: D2Settings::default(),
            binary: None,
            binary_resolved: false,
        };
        assert(r@.order =~= Seq::empty());
        r
    }
}

impl D2State {
    /// The cache and the order tell of the same diagrams.
    pub open spec fn wf(&self) -> bool {
        &&& self.cache.wf()
        &&& consistent(self@)
    }

    /// Lets go of all diagrams. Returns the pictures that the host is to drop.
    pub fn clear(&mut self) -> (dropped: Vec<RenderImage>)
        requires
            old(self).wf(),
        ensures
            final(self).wf(),
            final(self)@.cache == Map::<Seq<char>, CachedD2Diagram>::empty(),
            final(self)@.order == Seq::<Seq<char>>::empty(),
            final(self).settings == old(self).settings,
            final(self).binary == old(self).binary,
            final(self).binary_resolved == old(self).binary_resolved,
            dropped@.no_duplicates(),
            dropped@.to_set() == reachable_images(old(self)@.cache),
    {
        let nothing: Vec<RenderImage> = Vec::new();
        let nowhere: Vec<String> = Vec::new();
        let mut dropped: Vec<RenderImage> = Vec::new();
        self.cache.retain_in(&nowhere, &nothing, &mut dropped);
        self.order.clear();
        proof {
            assert(texts(nowhere@) =~= Seq::empty());
            assert(self@.order =~= Seq::empty());
            assert(self@.cache =~= Map::empty());
            let before = old(self)@.cache;
            assert forall|image: RenderImage|
                dropped@.to_set().contains(image) <==> reachable_images(before).contains(image) by {
                assert(dropped@.contains(image) <==> exists|contents: Seq<char>|
                    #![trigger before[contents]]
                    before.contains_key(contents) && images_of(before[contents]).contains(image));
            }
            assert(dropped@.to_set() =~= reachable_images(before));
        }
        dropped
    }

    /// The picture to show for the diagram at `index` until it is rendered.
    pub fn get_fallback_image(
        index: usize,
        old_order: &Vec<String>,
        new_order_len: usize,
        cache: &D2DiagramCache,
    ) -> (r: Option<RenderImage>)
        requires
            cache.wf(),
        ensures
            r == fallback_for(index as int, texts(old_order@), new_order_len as nat, cache@),
    {
        assert(texts(old_order@).len() == old_order.len());
        if old_order.len() != new_order_len || index >= old_order.len() {
            return None;
        }
        match cache.get(old_order[index].as_str()) {
            Some(diagram) => diagram.lasting(),
            None => None,
        }
    }

    /// Whether a `d2` binary was found, and so whether diagrams should be rendered at all.
    pub fn is_available(&self) -> (r: bool)
        ensures
            r == (self@.binary is Some),
    {
        self.binary.is_some()
    }

    /// Whether there are diagrams that were rendered with settings that no longer apply, so that
    /// unrelated changes of settings don't render every diagram again.
    pub fn settings_are_stale(&self, settings: &D2Settings) -> (r: bool)
        requires
            self.wf(),
        ensures
            r == (self@.cache != Map::<Seq<char>, CachedD2Diagram>::empty() && !same_settings(
                self@.settings,
                settings@,
            )),
    {
        !self.cache.is_empty() && !self.settings.same(settings)
    }

    /// Whether the `d2` binary is to be looked for before diagrams are rendered with `settings`.
    pub fn needs_binary(&self, settings: &D2Settings) -> (r: bool)
        ensures
            r == needs_search(self@, settings@),
    {
        !self.binary_resolved || !settings.same(&self.settings)
    }

    /// Whether the cached diagrams were rendered with `settings` and `binary`.
    fn can_reuse(&self, settings: &D2Settings, binary: &PathBuf) -> (r: bool)
        ensures
            r == reusable(self@, settings@, Some(path_buf_bytes(*binary))),
    {
        match &self.binary {
            Some(current) => settings.same(&self.settings) && same_bytes(binary, current),
            None => false,
        }
    }

    /// The picture to show at each place of a document with `new_order_len` diagrams until the
    /// diagram there is rendered.
    fn fallback_images(&self, new_order_len: usize) -> (r: Vec<Option<RenderImage>>)
        requires
            self.cache.wf(),
        ensures
            r.len() == new_order_len,
            forall|i: int|
                0 <= i < r.len() ==> #[trigger] r@[i] == fallback_for(
                    i,
                    self@.order,
                    new_order_len as nat,
                    self@.cache,
                ),
    {
        let mut images: Vec<Option<RenderImage>> = Vec::new();
        let mut i: usize = 0;
        while i < new_order_len
            invariant
                self.cache.wf(),
                i <= new_order_len,
                images.len() == i,
                forall|j: int|
                    0 <= j < i ==> #[trigger] images@[j] == fallback_for(
                        j,
                        self@.order,
                        new_order_len as nat,
                        self@.cache,
                    ),
            decreases new_order_len - i,
        {
            images.push(Self::get_fallback_image(i, &self.order, new_order_len, &self.cache));
            i += 1;
        }
        images
    }

    /// Puts a diagram into the cache for each text in `order` that is not there yet, with the
    /// picture for its place. Returns the diagrams to render.
    fn start_missing(
        &mut self,
        order: &Vec<String>,
        fallback_images: &Vec<Option<RenderImage>>,
        binary: &PathBuf,
        arguments: &Vec<String>,
        theme: u32,
    ) -> (started: Vec<RenderJob>)
        requires
            old(self).cache.wf(),
            fallback_images.len() == order.len(),
        ensures
            final(self).cache.wf(),
            final(self).order == old(self).order,
            final(self).settings == old(self).settings,
            final(self).binary == old(self).binary,
            final(self).binary_resolved == old(self).binary_resolved,
            final(self).cache@ == filled(
                old(self).cache@,
                texts(order@),
                texts(order@),
                fallback_images@,
            ),
            job_views(started@) == fresh_places(
                old(self).cache@,
                texts(order@),
                order@.len(),
            ).map_values(
                |place: int|
                    job_at(
                        texts(order@),
                        texts(arguments@),
                        path_buf_bytes(*binary),
                        theme,
                        place,
                    ),
            ),
    {
        let ghost before = self.cache@;
        let ghost new_order = texts(order@);
        let ghost job = |place: int|
            job_at(new_order, texts(arguments@), path_buf_bytes(*binary), theme, place);
        let mut started: Vec<RenderJob> = Vec::new();
        let mut i: usize = 0;
        proof {
            assert(before =~= filled(before, new_order.take(0), new_order, fallback_images@));
            assert(job_views(started@) =~= fresh_places(before, new_order, 0).map_values(job));
        }
        while i < order.len()
            invariant
                i <= order.len(),
                fallback_images.len() == order.len(),
                new_order == texts(order@),
                new_order.len() == order.len(),
                self.cache.wf(),
                self.order == old(self).order,
                self.settings == old(self).settings,
                self.binary == old(self).binary,
                self.binary_resolved == old(self).binary_resolved,
                self.cache@ == filled(
                    before,
                    new_order.take(i as int),
                    new_order,
                    fallback_images@,
                ),
                job == (|place: int|
                    job_at(new_order, texts(arguments@), path_buf_bytes(*binary), theme, place)),
                job_views(started@) == fresh_places(before, new_order, i as nat).map_values(job),
            decreases order.len() - i,
        {
            let ghost started_before = started@;
            let ghost here = new_order[i as int];
            let ghost seen = new_order.take(i as int);
            let ghost seen_after = new_order.take(i + 1);
            assert(order@[i as int]@ == here);
            proof {
                assert forall|contents: Seq<char>| #[trigger]
                    seen_after.contains(contents) <==> seen.contains(contents) || contents
                        == here by {
                    if seen_after.contains(contents) {
                        let j = choose|j: int|
                            0 <= j < seen_after.len() && seen_after[j] == contents;
                        if j < i {
                            assert(seen[j] == contents);
                        }
                    }
                    if seen.contains(contents) {
                        let j = choose|j: int| 0 <= j < seen.len() && seen[j] == contents;
                        assert(seen_after[j] == contents);
                    }
                    assert(seen_after[i as int] == here);
                }
            }
            if !self.cache.contains_key(order[i].as_str()) {
                proof {
                    assert(is_first(new_order, here, i as int)) by {
                        assert forall|j: int| 0 <= j < i implies new_order[j] != here by {
                            assert(seen[j] == new_order[j]);
                        }
                    }
                    lemma_first_at(new_order, here, i as int);
                }
                self.cache.insert(order[i].clone(), CachedD2Diagram::new(fallback_images[i]));
                let next = RenderJob {
                    contents: order[i].clone(),
                    binary: clone_path(binary),
                    arguments: clone_strings(arguments),
                    theme,
                };
                started.push(next);
                proof {
                    assert(next@ =~= job(i as int));
                    assert(job_views(started@) =~= job_views(started_before).push(next@));
                    assert(fresh_places(before, new_order, (i + 1) as nat) == fresh_places(
                        before,
                        new_order,
                        i as nat,
                    ).push(i as int));
                    assert(job_views(started@) =~= fresh_places(
                        before,
                        new_order,
                        (i + 1) as nat,
                    ).map_values(job));
                }
            } else {
                proof {
                    if !before.contains_key(here) {
                        let j = choose|j: int| 0 <= j < seen.len() && seen[j] == here;
                        assert(new_order[j] == here);
                        assert(!is_first(new_order, here, i as int));
                    }
                    assert(fresh_places(before, new_order, (i + 1) as nat) == fresh_places(
                        before,
                        new_order,
                        i as nat,
                    ));
                }
            }
            i += 1;
            assert(self.cache@ =~= filled(before, seen_after, new_order, fallback_images@));
        }
        assert(new_order.take(i as int) =~= new_order);
        started
    }

    /// Brings the diagrams up to date with the document and the settings, with the `d2` binary
    /// that was found for these settings. Diagrams that were rendered with other settings or
    /// another binary are rendered again. A picture may be shared between diagrams, so one that a
    /// diagram still holds on to is not dropped with those that leave.
    pub fn update_with_binary(
        &mut self,
        parsed: &ParsedMarkdown,
        settings: &D2Settings,
        binary: Option<PathBuf>,
        is_light: bool,
    ) -> (r: UpdateOutcome)
        requires
            old(self).wf(),
        ensures
            final(self).wf(),
            final(self)@ == state_after(
                old(self)@,
                document_order(diagram_views(parsed.d2_diagrams@)),
                settings@,
                optional_path_bytes(binary),
            ),
            job_views(r.started@) == jobs_for(
                old(self)@,
                document_order(diagram_views(parsed.d2_diagrams@)),
                settings@,
                optional_path_bytes(binary),
                is_light,
            ),
            forall|i: int|
                0 <= i < r.started.len() ==> (#[trigger] r.started@[i]).theme == (if is_light {
                    0u32
                } else {
                    200u32
                }),
            r.dropped@.no_duplicates(),
            r.dropped@.to_set() == images_let_go(old(self)@.cache, final(self)@.cache),
    {
        let ghost before = self@.cache;
        let binary = match binary {
            Some(binary) => binary,
            None => {
                let dropped = self.clear();
                self.settings = settings.clone();
                self.binary = None;
                self.binary_resolved = true;
                let started: Vec<RenderJob> = Vec::new();
                proof {
                    assert(job_views(started@) =~= Seq::empty());
                    assert(reachable_images(self@.cache) =~= Set::empty());
                    assert(dropped@.to_set() =~= images_let_go(before, self@.cache));
                }
                return UpdateOutcome { started, dropped };
            },
        };

        let new_order = parsed.diagram_contents();
        let ghost order = texts(new_order@);
        let ghost path = Some(path_buf_bytes(binary));
        let fallback_images = self.fallback_images(new_order.len());
        let keep = self.can_reuse(settings, &binary);
        let mut outdated = D2DiagramCache::new();
        if !keep {
            std::mem::swap(&mut self.cache, &mut outdated);
        }
        let ghost kept = self.cache@;
        let ghost discarded = outdated@;
        let started = self.start_missing(
            &new_order,
            &fallback_images,
            &binary,
            &settings.arguments,
            theme_for(is_light),
        );
        let protected_images = self.cache.images_in(&new_order);
        let ghost middle = self.cache@;
        let nowhere: Vec<String> = Vec::new();
        let mut dropped: Vec<RenderImage> = Vec::new();
        self.cache.retain_in(&new_order, &protected_images, &mut dropped);
        outdated.retain_in(&nowhere, &protected_images, &mut dropped);
        self.order = new_order;
        self.settings = settings.clone();
        self.binary = Some(binary);
        self.binary_resolved = true;
        proof {
            assert(order.len() == new_order@.len());
            assert(texts(nowhere@) =~= Seq::empty());
            let after = self@.cache;
            assert(kept =~= kept_cache(old(self)@, settings@, path));
            assert(after =~= cache_after(old(self)@, order, settings@, path)) by {
                assert forall|contents: Seq<char>| #[trigger] order.contains(contents) implies {
                    &&& middle.contains_key(contents)
                    &&& middle[contents] == entry_after(
                        old(self)@,
                        order,
                        settings@,
                        path,
                        contents,
                    )
                } by {
                    let somewhere = choose|i: int| 0 <= i < order.len() && order[i] == contents;
                    lemma_first_exists(order, contents, somewhere);
                }
            }
            lemma_let_go(
                before,
                kept,
                discarded,
                middle,
                after,
                order,
                protected_images@,
                dropped@,
            );
            lemma_themes(started@, old(self)@, order, settings@, path, is_light);
        }
        UpdateOutcome { started, dropped }
    }

    /// Brings the diagrams up to date with the document and the settings. The `d2` binary is
    /// looked for if it has not been yet, or if the settings have changed.
    pub fn update(
        &mut self,
        parsed: &ParsedMarkdown,
        settings: &D2Settings,
        is_light: bool,
    ) -> (r: UpdateOutcome)
        requires
            old(self).wf(),
        ensures
            final(self).wf(),
            final(self)@ == state_after(
                old(self)@,
                document_order(diagram_views(parsed.d2_diagrams@)),
                settings@,
                final(self)@.binary,
            ),
            !needs_search(old(self)@, settings@) ==> final(self)@.binary == old(self)@.binary,
            needs_search(old(self)@, settings@) ==> search_may_end(
                searched_binary(settings@),
                final(self)@.binary,
            ),
            job_views(r.started@) == jobs_for(
                old(self)@,
                document_order(diagram_views(parsed.d2_diagrams@)),
                settings@,
                final(self)@.binary,
                is_light,
            ),
            forall|i: int|
                0 <= i < r.started.len() ==> (#[trigger] r.started@[i]).theme == (if is_light {
                    0u32
                } else {
                    200u32
                }),
            r.dropped@.no_duplicates(),
            r.dropped@.to_set() == images_let_go(old(self)@.cache, final(self)@.cache),
    {
        let binary = if self.needs_binary(settings) {
            match &settings.path {
                Some(path) => locate(Some(as_path(path))),
                None => locate(None),
            }
        } else {
            match &self.binary {
                Some(binary) => Some(clone_path(binary)),
                None => None,
            }
        };
        self.update_with_binary(parsed, settings, binary, is_light)
    }

    /// Takes in an outcome of `job`. Where the document no longer has a diagram with its text, or
    /// has one that is rendered with other settings or another binary, there is nothing to do.
    pub fn finish_job(
        &mut self,
        job: &RenderJob,
        result: Result<RenderImage, DiagramError>,
    ) -> (r: Option<Completion>)
        requires
            old(self).wf(),
        ensures
            final(self).wf(),
            final(self)@ == state_with_outcome(old(self)@, job@, result),
            r is Some <==> is_awaited(old(self)@, job@),
            r matches Some(completion) ==> completion.stored == (
            old(self)@.cache[job@.contents].render_image is None) && completion.dropped == old(
                self,
            )@.cache[job@.contents].fallback_image,
            job@.arguments == old(self)@.settings.arguments && old(self)@.binary == Some(
                job@.binary,
            ) && old(self)@.cache.contains_key(job@.contents) ==> r is Some && (old(
                self,
            )@.cache[job@.contents].render_image is None ==> final(self)@.cache[job@.contents].render_image
                == Some(result)),
    {
        let current = match &self.binary {
            Some(binary) => same_bytes(&job.binary, binary) && same_texts(
                &job.arguments,
                &self.settings.arguments,
            ),
            None => false,
        };
        if current {
            self.finish_render(job.contents.as_str(), result)
        } else {
            None
        }
    }

    /// Takes in an outcome of rendering `contents` with the current settings and binary. Where the
    /// document no longer has a diagram with this text there is nothing to do.
    pub fn finish_render(
        &mut self,
        contents: &str,
        result: Result<RenderImage, DiagramError>,
    ) -> (r: Option<Completion>)
        requires
            old(self).wf(),
        ensures
            final(self).wf(),
            final(self)@.order == old(self)@.order,
            final(self)@.settings == old(self)@.settings,
            final(self)@.binary == old(self)@.binary,
            final(self)@.binary_resolved == old(self)@.binary_resolved,
            final(self)@.cache == (if old(self)@.cache.contains_key(contents@) {
                old(self)@.cache.insert(
                    contents@,
                    completed(old(self)@.cache[contents@], result),
                )
            } else {
                old(self)@.cache
            }),
            r is Some <==> old(self)@.cache.contains_key(contents@),
            r matches Some(completion) ==> completion.stored == (
            old(self)@.cache[contents@].render_image is None) && completion.dropped == old(
                self,
            )@.cache[contents@].fallback_image,
    {
        self.cache.finish_render(contents, result)
    }
}

} // verus!
