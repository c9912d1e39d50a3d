//! Rendered D2 diagrams, kept by the text they were rendered from.

use crate::d2_render::D2RenderError;
use crate::text::{contains_text, same_text, texts};
use vstd::prelude::*;

verus! {

/// A rendered picture that the host holds. The number tells pictures apart.
#[derive(Clone, Copy, Debug, PartialEq, Eq, Structural)]
pub struct RenderImage {
    pub id: u64,
}

/// Why there is no picture of a diagram.
#[derive(Debug)]
pub enum DiagramError {
    /// The diagram could not be turned into an SVG document.
    Render(D2RenderError),
    /// The SVG document could not be turned into a picture.
    Raster { reason: String },
}

/// The outcome of rendering a diagram: `rendered` tells why there is no SVG document, or else what
/// came of turning it into a picture.
pub fn picture_of(rendered: Result<Result<RenderImage, String>, D2RenderError>) -> (r: Result<
    RenderImage,
    DiagramError,
>)
    ensures
        r == match rendered {
            Ok(Ok(image)) => Ok::<RenderImage, DiagramError>(image),
            Ok(Err(reason)) => Err(DiagramError::Raster { reason }),
            Err(error) => Err(DiagramError::Render(error)),
        },
{
    match rendered {
        Ok(Ok(image)) => Ok(image),
        Ok(Err(reason)) => Err(DiagramError::Raster { reason }),
        Err(error) => Err(DiagramError::Render(error)),
    }
}

/// A diagram that is being rendered or has been.
#[derive(Debug)]
pub struct CachedD2Diagram {
    /// How rendering came out, once it has. It comes out once.
    pub render_image: Option<Result<RenderImage, DiagramError>>,
    /// The previous picture, shown while `render_image` is pending, so that an edited diagram
    /// doesn't disappear while it renders again.
    pub fallback_image: Option<RenderImage>,
}

/// What is to be done once rendering has come out.
#[derive(Debug)]
pub struct Completion {
    /// Whether this was the first outcome, the one that counts.
    pub stored: bool,
    /// A picture that the host is to drop.
    pub dropped: Option<RenderImage>,
}

/// The picture that rendering came out with, if it did.
pub open spec fn ready_image(diagram: CachedD2Diagram) -> Option<RenderImage> {
    match diagram.render_image {
        Some(Ok(image)) => Some(image),
        _ => None,
    }
}

/// The pictures that a diagram holds on to.
pub open spec fn images_of(diagram: CachedD2Diagram) -> Seq<RenderImage> {
    (match ready_image(diagram) {
        Some(image) => seq![image],
        None => seq![],
    }) + (match diagram.fallback_image {
        Some(image) => seq![image],
        None => seq![],
    })
}

/// The picture to show for a diagram while its successor renders.
pub open spec fn lasting_image(diagram: CachedD2Diagram) -> Option<RenderImage> {
    match ready_image(diagram) {
        Some(image) => Some(image),
        None => diagram.fallback_image,
    }
}

/// A diagram that has just begun to render.
pub open spec fn pending(fallback_image: Option<RenderImage>) -> CachedD2Diagram {
    CachedD2Diagram { render_image: None, fallback_image }
}

/// A diagram after an outcome of rendering: the first one stays.
pub open spec fn completed(
    diagram: CachedD2Diagram,
    result: Result<RenderImage, DiagramError>,
) -> CachedD2Diagram {
    match diagram.render_image {
        None => CachedD2Diagram {
            render_image: Some(result),
            fallback_image: diagram.fallback_image,
        },
        Some(_) => diagram,
    }
}

/// The pictures that some diagram holds on to.
pub open spec fn reachable_images(cache: Map<Seq<char>, CachedD2Diagram>) -> Set<RenderImage> {
    Set::new(
        |image: RenderImage|
            exists|contents: Seq<char>|
                #![trigger cache[contents]]
                cache.contains_key(contents) && images_of(cache[contents]).contains(image),
    )
}

/// `dropped` with each of `images` put behind it that is not `protected` and not there yet.
pub open spec fn with_dropped(
    dropped: Seq<RenderImage>,
    images: Seq<RenderImage>,
    protected: Seq<RenderImage>,
) -> Seq<RenderImage>
    decreases images.len(),
{
    if images.len() == 0 {
        dropped
    } else {
        let before = with_dropped(dropped, images.drop_last(), protected);
        if protected.contains(images.last()) || before.contains(images.last()) {
            before
        } else {
            before.push(images.last())
        }
    }
}

/// What is dropped then: what was before, and the pictures that are not protected, each once.
pub proof fn lemma_with_dropped(
    dropped: Seq<RenderImage>,
    images: Seq<RenderImage>,
    protected: Seq<RenderImage>,
)
    ensures
        forall|image: RenderImage| #[trigger]
            with_dropped(dropped, images, protected).contains(image) <==> dropped.contains(image)
                || (images.contains(image) && !protected.contains(image)),
        dropped.no_duplicates() ==> with_dropped(dropped, images, protected).no_duplicates(),
    decreases images.len(),
{
    if images.len() > 0 {
        let rest = images.drop_last();
        let before = with_dropped(dropped, rest, protected);
        let after = with_dropped(dropped, images, protected);
        lemma_with_dropped(dropped, rest, protected);
        assert forall|image: RenderImage| #[trigger] after.contains(image) implies dropped.contains(
            image,
        ) || (images.contains(image) && !protected.contains(image)) by {
            if before.contains(image) {
                if rest.contains(image) {
                    let i = choose|i: int| 0 <= i < rest.len() && rest[i] == image;
                    assert(images[i] == image);
                }
            } else {
                let i = choose|i: int| 0 <= i < after.len() && after[i] == image;
                assert(i >= before.len() || before[i] == image);
                assert(image == images.last());
                assert(images[images.len() - 1] == image);
            }
        }
        assert forall|image: RenderImage|
            dropped.contains(image) || (images.contains(image) && !protected.contains(
                image,
            )) implies #[trigger] after.contains(image) by {
            if before.contains(image) {
                let i = choose|i: int| 0 <= i < before.len() && before[i] == image;
                assert(after[i] == image);
            } else {
                let i = choose|i: int| 0 <= i < images.len() && images[i] == image;
                assert(i < rest.len() ==> rest[i] == image);
                assert(image == images.last());
                assert(after == before.push(image));
                assert(after[before.len() as int] == image);
            }
        }
    }
}

/// A diagram holds on to the picture that rendering came out with and to the one shown meanwhile,
/// and to no other.
pub proof fn law_images_held(diagram: CachedD2Diagram, image: RenderImage)
    ensures
        images_of(diagram).contains(image) <==> diagram.render_image == Some(
            Ok::<RenderImage, DiagramError>(image),
        ) || diagram.fallback_image == Some(image),
{
    let images = images_of(diagram);
    if diagram.render_image == Some(Ok::<RenderImage, DiagramError>(image)) {
        assert(images[0] == image);
    }
    if diagram.fallback_image == Some(image) {
        assert(images[images.len() - 1] == image);
    }
}

/// What lasts of a diagram is the picture that rendering came out with, or, where there is none,
/// the one that was shown meanwhile.
pub proof fn law_lasting_image(diagram: CachedD2Diagram, image: RenderImage)
    ensures
        ready_image(diagram) == Some(image) <==> diagram.render_image == Some(
            Ok::<RenderImage, DiagramError>(image),
        ),
        diagram.render_image == Some(Ok::<RenderImage, DiagramError>(image)) ==> lasting_image(
            diagram,
        ) == Some(image),
        diagram.render_image is None || diagram.render_image->0 is Err ==> lasting_image(diagram)
            == diagram.fallback_image,
{
}

/// A diagram that has just begun to render has no outcome and shows the given picture meanwhile.
pub proof fn law_pending(fallback_image: Option<RenderImage>)
    ensures
        pending(fallback_image).render_image is None,
        pending(fallback_image).fallback_image == fallback_image,
{
}

/// The first outcome of rendering is kept as it is, a later one is not, and neither touches the
/// picture shown meanwhile.
pub proof fn law_completed(diagram: CachedD2Diagram, result: Result<RenderImage, DiagramError>)
    ensures
        diagram.render_image is None ==> completed(diagram, result).render_image == Some(result),
        diagram.render_image is Some ==> completed(diagram, result).render_image
            == diagram.render_image,
        completed(diagram, result).fallback_image == diagram.fallback_image,
{
}

/// A picture is held exactly if some diagram of the cache holds on to it.
pub proof fn law_reachable_images(cache: Map<Seq<char>, CachedD2Diagram>, image: RenderImage)
    ensures
        reachable_images(cache).contains(image) <==> exists|contents: Seq<char>|
            #![trigger cache[contents]]
            cache.contains_key(contents) && (cache[contents].render_image == Some(
                Ok::<RenderImage, DiagramError>(image),
            ) || cache[contents].fallback_image == Some(image)),
{
    if reachable_images(cache).contains(image) {
        let contents = choose|contents: Seq<char>|
            #![trigger cache[contents]]
            cache.contains_key(contents) && images_of(cache[contents]).contains(image);
        law_images_held(cache[contents], image);
    }
    if exists|contents: Seq<char>|
        #![trigger cache[contents]]
        cache.contains_key(contents) && (cache[contents].render_image == Some(
            Ok::<RenderImage, DiagramError>(image),
        ) || cache[contents].fallback_image == Some(image)) {
        let contents = choose|contents: Seq<char>|
            #![trigger cache[contents]]
            cache.contains_key(contents) && (cache[contents].render_image == Some(
                Ok::<RenderImage, DiagramError>(image),
            ) || cache[contents].fallback_image == Some(image));
        law_images_held(cache[contents], image);
    }
}

/// Pictures are added to those that are dropped, and none is taken away from there or dropped
/// twice: those that are not protected, and no others.
pub proof fn law_dropped_once(
    dropped: Seq<RenderImage>,
    images: Seq<RenderImage>,
    protected: Seq<RenderImage>,
)
    requires
        dropped.no_duplicates(),
    ensures
        with_dropped(dropped, images, protected).no_duplicates(),
        forall|image: RenderImage| #[trigger]
            with_dropped(dropped, images, protected).contains(image) <==> dropped.contains(image)
                || (images.contains(image) && !protected.contains(image)),
{
    lemma_with_dropped(dropped, images, protected);
}

/// Whether `image` is among `images`.
fn contains_image(images: &Vec<RenderImage>, image: RenderImage) -> (r: bool)
    ensures
        r == images@.contains(image),
{
    let mut i: usize = 0;
    while i < images.len()
        invariant
            i <= images.len(),
            forall|j: int| 0 <= j < i ==> images@[j] != image,
        decreases images.len() - i,
    {
        if images[i].id == image.id {
            assert(images@[i as int] == image);
            return true;
        }
        i += 1;
    }
    false
}

impl CachedD2Diagram {
    /// A diagram that has just begun to render, with the picture to show meanwhile.
    pub fn new(fallback_image: Option<RenderImage>) -> (r: Self)
        ensures
            r == pending(fallback_image),
    {
        CachedD2Diagram { render_image: None, fallback_image }
    }

    /// Takes in an outcome of rendering. The first one stays; a fallback picture has served its
    /// purpose then.
    pub fn finish(&mut self, result: Result<RenderImage, DiagramError>) -> (r: Completion)
        ensures
            *final(self) == completed(*old(self), result),
            r.stored == (old(self).render_image is None),
            r.dropped == old(self).fallback_image,
    {
        let stored = match &self.render_image {
            None => true,
            Some(_) => false,
        };
        if stored {
            self.render_image = Some(result);
        }
        Completion { stored, dropped: self.fallback_image }
    }

    /// The picture that rendering came out with, if it did.
    pub fn ready(&self) -> (r: Option<RenderImage>)
        ensures
            r == ready_image(*self),
    {
        match &self.render_image {
            Some(Ok(image)) => Some(*image),
            _ => None,
        }
    }

    /// The picture to show for this diagram while its successor renders.
    pub fn lasting(&self) -> (r: Option<RenderImage>)
        ensures
            r == lasting_image(*self),
    {
        match self.ready() {
            Some(image) => Some(image),
            None => self.fallback_image,
        }
    }

    /// The pictures that this diagram holds on to.
    pub fn images(&self) -> (r: Vec<RenderImage>)
        ensures
            r@ == images_of(*self),
    {
        let mut images: Vec<RenderImage> = Vec::new();
        if let Some(image) = self.ready() {
            images.push(image);
        }
        if let Some(image) = self.fallback_image {
            images.push(image);
        }
        assert(images@ =~= images_of(*self));
        images
    }

    /// Adds the pictures that this diagram holds on to to those that the host is to drop: those
    /// that are not protected, and each once.
    pub fn drop_images(
        &self,
        protected_images: &Vec<RenderImage>,
        dropped_images: &mut Vec<RenderImage>,
    )
        ensures
            final(dropped_images)@ == with_dropped(
                old(dropped_images)@,
                images_of(*self),
                protected_images@,
            ),
    {
        let images = self.images();
        let mut i: usize = 0;
        assert(images@.take(0) =~= Seq::<RenderImage>::empty());
        while i < images.len()
            invariant
                i <= images.len(),
                dropped_images@ == with_dropped(
                    old(dropped_images)@,
                    images@.take(i as int),
                    protected_images@,
                ),
            decreases images.len() - i,
        {
            let image = images[i];
            assert(images@.take(i + 1).drop_last() =~= images@.take(i as int));
            if !contains_image(protected_images, image) && !contains_image(dropped_images, image) {
                dropped_images.push(image);
            }
            i += 1;
        }
        assert(images@.take(i as int) =~= images@);
    }
}

/// A diagram and the text it is rendered from.
#[derive(Debug)]
struct CacheEntry {
    contents: String,
    diagram: CachedD2Diagram,
}

/// Diagrams by the text they are rendered from.
#[derive(Debug)]
pub struct D2DiagramCache {
    entries: Vec<CacheEntry>,
}

impl View for D2DiagramCache {
    type V = Map<Seq<char>, CachedD2Diagram>;

    closed spec fn view(&self) -> Map<Seq<char>, CachedD2Diagram> {
        Map::new(
            |contents: Seq<char>| holds(self.entries@, contents),
            |contents: Seq<char>| self.entries@[position(self.entries@, contents)].diagram,
        )
    }
}

/// Whether there is an entry for `contents`.
closed spec fn holds(entries: Seq<CacheEntry>, contents: Seq<char>) -> bool {
    exists|i: int| 0 <= i < entries.len() && #[trigger] entries[i].contents@ == contents
}

/// Where the entry for `contents` is.
closed spec fn position(entries: Seq<CacheEntry>, contents: Seq<char>) -> int {
    choose|i: int| 0 <= i < entries.len() && #[trigger] entries[i].contents@ == contents
}

/// No two entries are for the same text.
closed spec fn distinct(entries: Seq<CacheEntry>) -> bool {
    forall|i: int, j: int|
        0 <= i < entries.len() && 0 <= j < entries.len() && #[trigger] entries[i].contents@
            == #[trigger] entries[j].contents@ ==> i == j
}

impl D2DiagramCache {
    /// There is at most one diagram for a text.
    pub closed spec fn wf(&self) -> bool {
        distinct(self.entries@)
    }

    /// Each entry is what the cache holds for its text.
    proof fn lemma_entry(&self, i: int)
        requires
            self.wf(),
            0 <= i < self.entries.len(),
        ensures
            self@.contains_key(self.entries@[i].contents@),
            self@[self.entries@[i].contents@] == self.entries@[i].diagram,
    {
        let contents = self.entries@[i].contents@;
        assert(holds(self.entries@, contents));
        assert(position(self.entries@, contents) == i);
    }

    /// A cache without diagrams.
    pub fn new() -> (r: Self)
        ensures
            r.wf(),
            r@ == Map::<Seq<char>, CachedD2Diagram>::empty(),
    {
        let r = D2DiagramCache { entries: Vec::new() };
        assert(r@ =~= Map::empty());
        r
    }

    /// Whether there are no diagrams.
    pub fn is_empty(&self) -> (r: bool)
        requires
            self.wf(),
        ensures
            r == (self@ == Map::<Seq<char>, CachedD2Diagram>::empty()),
    {
        proof {
            if self.entries.len() > 0 {
                self.lemma_entry(0);
            } else {
                assert(self@ =~= Map::empty());
            }
        }
        self.entries.len() == 0
    }

    /// Where the entry for `contents` is, if there is one.
    fn find(&self, contents: &str) -> (r: Option<usize>)
        requires
            self.wf(),
        ensures
            r is Some <==> self@.contains_key(contents@),
            r matches Some(i) ==> i < self.entries.len() && self.entries@[i as int].contents@
                == contents@ && self@[contents@] == self.entries@[i as int].diagram,
    {
        let mut i: usize = 0;
        while i < self.entries.len()
            invariant
                self.wf(),
                i <= self.entries.len(),
                forall|j: int|
                    0 <= j < i ==> #[trigger] self.entries@[j].contents@ != contents@,
            decreases self.entries.len() - i,
        {
            if same_text(self.entries[i].contents.as_str(), contents) {
                proof {
                    self.lemma_entry(i as int);
                }
                return Some(i);
            }
            i += 1;
        }
        None
    }

    /// Whether there is a diagram for `contents`.
    pub fn contains_key(&self, contents: &str) -> (r: bool)
        requires
            self.wf(),
        ensures
            r == self@.contains_key(contents@),
    {
        self.find(contents).is_some()
    }

    /// The diagram for `contents`, if there is one.
    pub fn get(&self, contents: &str) -> (r: Option<&CachedD2Diagram>)
        requires
            self.wf(),
        ensures
            r == (if self@.contains_key(contents@) {
                Some(&self@[contents@])
            } else {
                None
            }),
    {
        match self.find(contents) {
            Some(i) => Some(&self.entries[i].diagram),
            None => None,
        }
    }

    /// Puts in the diagram for `contents`, and hands back the one that it takes the place of.
    pub fn insert(&mut self, contents: String, diagram: CachedD2Diagram) -> (r: Option<
        CachedD2Diagram,
    >)
        requires
            old(self).wf(),
        ensures
            final(self).wf(),
            final(self)@ == old(self)@.insert(contents@, diagram),
            r == (if old(self)@.contains_key(contents@) {
                Some(old(self)@[contents@])
            } else {
                None
            }),
    {
        let found = self.find(contents.as_str());
        let ghost before = self.entries@;
        let replaced = match found {
            Some(i) => Some(self.entries.remove(i).diagram),
            None => None,
        };
        let ghost rest = self.entries@;
        proof {
            if let Some(i) = found {
                assert forall|j: int| 0 <= j < rest.len() implies #[trigger] rest[j]
                    == before[if j < i {
                    j
                } else {
                    j + 1
                }] by {}
            }
            assert(distinct(rest));
            assert(!holds(rest, contents@));
        }
        let ghost key = contents@;
        self.entries.push(CacheEntry { contents, diagram });
        proof {
            let after = self.entries@;
            assert forall|j: int| 0 <= j < rest.len() implies #[trigger] after[j] == rest[j] by {}
            assert(after[rest.len() as int].contents@ == key);
            assert(distinct(after)) by {
                assert forall|a: int, b: int|
                    0 <= a < after.len() && 0 <= b < after.len() && #[trigger] after[a].contents@
                        == #[trigger] after[b].contents@ implies a == b by {
                    if a < rest.len() && b < rest.len() {
                        assert(rest[a].contents@ == rest[b].contents@);
                    } else if a < rest.len() {
                        assert(rest[a].contents@ == key);
                    } else if b < rest.len() {
                        assert(rest[b].contents@ == key);
                    }
                }
            }
            assert forall|k: Seq<char>| self@.contains_key(k) <==> #[trigger] old(
                self,
            )@.insert(key, diagram).contains_key(k) by {
                if self@.contains_key(k) {
                    let j = position(after, k);
                    if j < rest.len() {
                        let i = if found is Some && j >= found->0 {
                            j + 1
                        } else {
                            j
                        };
                        assert(before[i].contents@ == k);
                    }
                } else if k != key && old(self)@.contains_key(k) {
                    let i = position(before, k);
                    let j = if found is Some && i > found->0 {
                        i - 1
                    } else {
                        i
                    };
                    assert(rest[j] == before[i]);
                    assert(after[j].contents@ == k);
                }
            }
            assert forall|k: Seq<char>| #[trigger] self@.contains_key(k) implies self@[k] == old(
                self,
            )@.insert(key, diagram)[k] by {
                let j = position(after, k);
                self.lemma_entry(j);
                if j < rest.len() {
                    let i = if found is Some && j >= found->0 {
                        j + 1
                    } else {
                        j
                    };
                    assert(before[i] == after[j]);
                    old(self).lemma_entry(i);
                } else {
                    assert(k == key);
                }
            }
            assert(self@ =~= old(self)@.insert(key, diagram));
        }
        replaced
    }

    /// Takes in an outcome of rendering `contents`. Where there is no diagram for `contents` any
    /// more there is nothing to do.
    pub fn finish_render(
        &mut self,
        contents: &str,
        result: Result<RenderImage, DiagramError>,
    ) -> (r: Option<Completion>)
        requires
            old(self).wf(),
        ensures
            final(self).wf(),
            final(self)@ == (if old(self)@.contains_key(contents@) {
                old(self)@.insert(contents@, completed(old(self)@[contents@], result))
            } else {
                old(self)@
            }),
            r is Some <==> old(self)@.contains_key(contents@),
            r matches Some(completion) ==> completion.stored == (
            old(self)@[contents@].render_image is None) && completion.dropped == old(
                self,
            )@[contents@].fallback_image,
    {
        match self.find(contents) {
            Some(i) => {
                let mut entry = self.entries.remove(i);
                let completion = entry.diagram.finish(result);
                self.entries.insert(i, entry);
                proof {
                    let before = old(self).entries@;
                    let after = self.entries@;
                    assert(after =~= before.update(i as int, after[i as int]));
                    assert(after[i as int].contents@ == contents@);
                    assert(distinct(after)) by {
                        assert forall|a: int, b: int|
                            0 <= a < after.len() && 0 <= b < after.len()
                                && #[trigger] after[a].contents@ == #[trigger] after[b].contents@
                            implies a == b by {
                            assert(before[a].contents@ == before[b].contents@);
                        }
                    }
                    let expected = old(self)@.insert(
                        contents@,
                        completed(old(self)@[contents@], result),
                    );
                    assert forall|k: Seq<char>| self@.contains_key(
                        k,
                    ) <==> #[trigger] expected.contains_key(k) by {
                        if self@.contains_key(k) {
                            let j = position(after, k);
                            assert(before[j].contents@ == k);
                        } else if expected.contains_key(k) {
                            let j = position(before, k);
                            assert(after[j].contents@ == k);
                        }
                    }
                    assert forall|k: Seq<char>| #[trigger] self@.contains_key(k) implies self@[k]
                        == expected[k] by {
                        let j = position(after, k);
                        self.lemma_entry(j);
                        old(self).lemma_entry(j);
                    }
                    assert(self@ =~= expected);
                }
                Some(completion)
            },
            None => None,
        }
    }

    /// The pictures that the diagrams for the texts in `order` hold on to.
    pub fn images_in(&self, order: &Vec<String>) -> (r: Vec<RenderImage>)
        requires
            self.wf(),
        ensures
            forall|image: RenderImage| #[trigger]
                r@.contains(image) <==> exists|contents: Seq<char>|
                    #![trigger self@[contents]]
                    self@.contains_key(contents) && texts(order@).contains(contents) && images_of(
                        self@[contents],
                    ).contains(image),
    {
        let nothing: Vec<RenderImage> = Vec::new();
        let mut images: Vec<RenderImage> = Vec::new();
        let mut i: usize = 0;
        while i < self.entries.len()
            invariant
                self.wf(),
                i <= self.entries.len(),
                nothing@.len() == 0,
                forall|image: RenderImage| #[trigger]
                    images@.contains(image) <==> exists|j: int|
                        #![trigger self.entries@[j]]
                        0 <= j < i && texts(order@).contains(self.entries@[j].contents@)
                            && images_of(self.entries@[j].diagram).contains(image),
            decreases self.entries.len() - i,
        {
            let ghost before = images@;
            if contains_text(order, self.entries[i].contents.as_str()) {
                self.entries[i].diagram.drop_images(&nothing, &mut images);
                proof {
                    lemma_with_dropped(
                        before,
                        images_of(self.entries@[i as int].diagram),
                        nothing@,
                    );
                }
            }
            proof {
                assert forall|image: RenderImage| #[trigger]
                    images@.contains(image) <==> exists|j: int|
                        #![trigger self.entries@[j]]
                        0 <= j < i + 1 && texts(order@).contains(self.entries@[j].contents@)
                            && images_of(self.entries@[j].diagram).contains(image) by {
                    if before.contains(image) {
                        let j = choose|j: int|
                            #![trigger self.entries@[j]]
                            0 <= j < i && texts(order@).contains(self.entries@[j].contents@)
                                && images_of(self.entries@[j].diagram).contains(image);
                        assert(0 <= j < i + 1);
                    }
                    assert(self.entries@[i as int] == self.entries@[i as int]);
                }
            }
            i += 1;
        }
        proof {
            assert forall|image: RenderImage| #[trigger]
                images@.contains(image) <==> exists|contents: Seq<char>|
                    #![trigger self@[contents]]
                    self@.contains_key(contents) && texts(order@).contains(contents) && images_of(
                        self@[contents],
                    ).contains(image) by {
                if images@.contains(image) {
                    let j = choose|j: int|
                        #![trigger self.entries@[j]]
                        0 <= j < i && texts(order@).contains(self.entries@[j].contents@)
                            && images_of(self.entries@[j].diagram).contains(image);
                    self.lemma_entry(j);
                    let contents = self.entries@[j].contents@;
                    assert(images_of(self@[contents]).contains(image));
                }
                if exists|contents: Seq<char>|
                    #![trigger self@[contents]]
                    self@.contains_key(contents) && texts(order@).contains(contents) && images_of(
                        self@[contents],
                    ).contains(image) {
                    let contents = choose|contents: Seq<char>|
                        #![trigger self@[contents]]
                        self@.contains_key(contents) && texts(order@).contains(contents)
                            && images_of(self@[contents]).contains(image);
                    let j = position(self.entries@, contents);
                    self.lemma_entry(j);
                    assert(self.entries@[j].contents@ == contents);
                }
            }
        }
        images
    }

    /// Keeps the diagrams for the texts in `order`. Of the others, the pictures that are not
    /// protected are added, each once, to those that the host is to drop.
    pub fn retain_in(
        &mut self,
        order: &Vec<String>,
        protected_images: &Vec<RenderImage>,
        dropped_images: &mut Vec<RenderImage>,
    )
        requires
            old(self).wf(),
        ensures
            final(self).wf(),
            final(self)@ == old(self)@.restrict(
                Set::new(|contents: Seq<char>| texts(order@).contains(contents)),
            ),
            old(dropped_images)@.no_duplicates() ==> final(dropped_images)@.no_duplicates(),
            forall|image: RenderImage| #[trigger]
                final(dropped_images)@.contains(image) <==> old(dropped_images)@.contains(image)
                    || (!protected_images@.contains(image) && exists|contents: Seq<char>|
                    #![trigger old(self)@[contents]]
                    old(self)@.contains_key(contents) && !texts(order@).contains(contents)
                        && images_of(old(self)@[contents]).contains(image)),
    {
        let ghost all = self.entries@;
        let mut kept: Vec<CacheEntry> = Vec::new();
        while self.entries.len() > 0
            invariant
                old(self).wf(),
                all == old(self).entries@,
                self.entries.len() <= all.len(),
                self.entries@ == all.take(self.entries.len() as int),
                distinct(kept@),
                forall|j: int|
                    #![trigger kept@[j]]
                    0 <= j < kept.len() ==> texts(order@).contains(kept@[j].contents@) && exists|
                        i: int,
                    |
                        self.entries.len() <= i < all.len() && #[trigger] all[i] == kept@[j],
                forall|i: int|
                    #![trigger all[i]]
                    self.entries.len() <= i < all.len() && texts(order@).contains(all[i].contents@)
                        ==> kept@.contains(all[i]),
                old(dropped_images)@.no_duplicates() ==> dropped_images@.no_duplicates(),
                forall|image: RenderImage| #[trigger]
                    dropped_images@.contains(image) <==> old(dropped_images)@.contains(image) || (
                    !protected_images@.contains(image) && exists|i: int|
                        #![trigger all[i]]
                        self.entries.len() <= i < all.len() && !texts(order@).contains(
                            all[i].contents@,
                        ) && images_of(all[i].diagram).contains(image)),
            decreases self.entries.len(),
        {
            let ghost n = self.entries.len() - 1;
            let ghost dropped_before = dropped_images@;
            let ghost kept_before = kept@;
            if let Some(entry) = self.entries.pop() {
                assert(entry == all[n]);
                assert(self.entries@ =~= all.take(n));
                if contains_text(order, entry.contents.as_str()) {
                    kept.push(entry);
                    proof {
                        assert(kept@[kept_before.len() as int] == all[n]);
                        assert forall|j: int|
                            #![trigger kept@[j]]
                            0 <= j < kept_before.len() implies kept@[j] == kept_before[j] by {}
                        assert(distinct(kept@)) by {
                            assert forall|a: int, b: int|
                                0 <= a < kept@.len() && 0 <= b < kept@.len()
                                    && #[trigger] kept@[a].contents@
                                    == #[trigger] kept@[b].contents@ implies a == b by {
                                if a < kept_before.len() && b == kept_before.len() {
                                    let i = choose|i: int|
                                        n + 1 <= i < all.len() && #[trigger] all[i]
                                            == kept_before[a];
                                    assert(all[i].contents@ == all[n].contents@);
                                } else if b < kept_before.len() && a == kept_before.len() {
                                    let i = choose|i: int|
                                        n + 1 <= i < all.len() && #[trigger] all[i]
                                            == kept_before[b];
                                    assert(all[i].contents@ == all[n].contents@);
                                } else if a < kept_before.len() {
                                    assert(kept_before[a].contents@ == kept_before[b].contents@);
                                }
                            }
                        }
                        assert forall|i: int|
                            #![trigger all[i]]
                            n <= i < all.len() && texts(order@).contains(
                                all[i].contents@,
                            ) implies kept@.contains(all[i]) by {
                            if i > n {
                                assert(kept_before.contains(all[i]));
                                let j = choose|j: int|
                                    0 <= j < kept_before.len() && kept_before[j] == all[i];
                                assert(kept@[j] == all[i]);
                            }
                        }
                    }
                } else {
                    entry.diagram.drop_images(protected_images, dropped_images);
                    proof {
                        lemma_with_dropped(
                            dropped_before,
                            images_of(entry.diagram),
                            protected_images@,
                        );
                    }
                }
                proof {
                    assert forall|image: RenderImage| #[trigger]
                        dropped_images@.contains(image) <==> old(dropped_images)@.contains(image)
                            || (!protected_images@.contains(image) && exists|i: int|
                            #![trigger all[i]]
                            n <= i < all.len() && !texts(order@).contains(all[i].contents@)
                                && images_of(all[i].diagram).contains(image)) by {
                        if dropped_before.contains(image) && !old(dropped_images)@.contains(
                            image,
                        ) {
                            let i = choose|i: int|
                                #![trigger all[i]]
                                n + 1 <= i < all.len() && !texts(order@).contains(all[i].contents@)
                                    && images_of(all[i].diagram).contains(image);
                            assert(n <= i < all.len());
                        }
                        assert(all[n] == all[n]);
                    }
                }
            }
        }
        self.entries = kept;
        proof {
            let after = self.entries@;
            let expected = old(self)@.restrict(
                Set::new(|contents: Seq<char>| texts(order@).contains(contents)),
            );
            assert forall|k: Seq<char>| self@.contains_key(k) <==> #[trigger] expected.contains_key(
                k,
            ) by {
                if self@.contains_key(k) {
                    let j = position(after, k);
                    assert(after[j] == kept@[j]);
                    let i = choose|i: int| 0 <= i < all.len() && #[trigger] all[i] == kept@[j];
                    old(self).lemma_entry(i);
                }
                if expected.contains_key(k) {
                    let i = position(all, k);
                    old(self).lemma_entry(i);
                    assert(kept@.contains(all[i]));
                    let j = choose|j: int| 0 <= j < kept@.len() && kept@[j] == all[i];
                    assert(after[j].contents@ == k);
                }
            }
            assert forall|k: Seq<char>| #[trigger] self@.contains_key(k) implies self@[k]
                == expected[k] by {
                let j = position(after, k);
                self.lemma_entry(j);
                let i = choose|i: int| 0 <= i < all.len() && #[trigger] all[i] == kept@[j];
                old(self).lemma_entry(i);
            }
            assert(self@ =~= expected);
            assert forall|image: RenderImage| #[trigger]
                dropped_images@.contains(image) <==> old(dropped_images)@.contains(image) || (
                !protected_images@.contains(image) && exists|contents: Seq<char>|
                    #![trigger old(self)@[contents]]
                    old(self)@.contains_key(contents) && !texts(order@).contains(contents)
                        && images_of(old(self)@[contents]).contains(image)) by {
                if exists|i: int|
                    #![trigger all[i]]
                    0 <= i < all.len() && !texts(order@).contains(all[i].contents@) && images_of(
                        all[i].diagram,
                    ).contains(image) {
                    let i = choose|i: int|
                        #![trigger all[i]]
                        0 <= i < all.len() && !texts(order@).contains(all[i].contents@)
                            && images_of(all[i].diagram).contains(image);
                    old(self).lemma_entry(i);
                    let contents = all[i].contents@;
                    assert(images_of(old(self)@[contents]).contains(image));
                }
                if exists|contents: Seq<char>|
                    #![trigger old(self)@[contents]]
                    old(self)@.contains_key(contents) && !texts(order@).contains(contents)
                        && images_of(old(self)@[contents]).contains(image) {
                    let contents = choose|contents: Seq<char>|
                        #![trigger old(self)@[contents]]
                        old(self)@.contains_key(contents) && !texts(order@).contains(contents)
                            && images_of(old(self)@[contents]).contains(image);
                    let i = position(all, contents);
                    old(self).lemma_entry(i);
                    assert(all[i].contents@ == contents);
                }
            }
        }
    }
}

} // verus!
