//! What holds of the D2 diagrams of a document across changes of the document.

use crate::cache::{
    completed, images_of, lasting_image, pending, reachable_images, CachedD2Diagram, DiagramError,
    RenderImage,
};
use crate::d2::{
    consistent, fallback_for, first_at, fresh_places, images_let_go, is_awaited, is_first,
    job_views, jobs_for, kept_cache, lemma_first_at, lemma_first_exists, needs_search, reusable,
    searched_binary, state_after, state_with_outcome, D2State, D2StateView, RenderJob,
    RenderJobView,
};
use crate::paths::path_buf_bytes;
use crate::settings::{same_settings, D2SettingsView};
use vstd::prelude::*;
use vstd::utf8::encode_utf8;

verus! {

/// The diagrams of a document are seen as they are: field by field, text by text.
pub proof fn law_state_view(state: D2State)
    ensures
        state@.cache == state.cache@,
        state@.order.len() == state.order@.len(),
        forall|i: int| 0 <= i < state.order@.len() ==> #[trigger] state@.order[i]
            == state.order@[i]@,
        state@.settings == state.settings@,
        state@.binary == (match state.binary {
            Some(path) => Some(path_buf_bytes(path)),
            None => None,
        }),
        state@.binary_resolved == state.binary_resolved,
{
}

/// Jobs are seen as they are, one for one and field by field.
pub proof fn law_job_views(jobs: Seq<RenderJob>)
    ensures
        job_views(jobs).len() == jobs.len(),
        forall|i: int|
            #![trigger job_views(jobs)[i]]
            0 <= i < jobs.len() ==> {
                &&& job_views(jobs)[i].contents == jobs[i].contents@
                &&& job_views(jobs)[i].binary == path_buf_bytes(jobs[i].binary)
                &&& job_views(jobs)[i].arguments.len() == jobs[i].arguments@.len()
                &&& forall|k: int|
                    0 <= k < jobs[i].arguments@.len() ==> job_views(jobs)[i].arguments[k]
                        == #[trigger] jobs[i].arguments@[k]@
                &&& job_views(jobs)[i].theme == jobs[i].theme
            },
{
}

/// Of a cache and an order nothing is asked but that they tell of the same texts.
pub proof fn law_consistent(state: D2StateView)
    requires
        forall|contents: Seq<char>| #[trigger]
            state.cache.contains_key(contents) ==> state.order.contains(contents),
        forall|i: int|
            0 <= i < state.order.len() ==> state.cache.contains_key(#[trigger] state.order[i]),
    ensures
        consistent(state),
{
    assert forall|contents: Seq<char>| state.order.contains(
        contents,
    ) implies #[trigger] state.cache.contains_key(contents) by {
        let i = choose|i: int| 0 <= i < state.order.len() && state.order[i] == contents;
        assert(state.cache.contains_key(state.order[i]));
    }
}

/// After a change the settings and the binary are the new ones, and the binary counts as looked
/// for, whatever was before. With a binary the document's texts are those in the order, and each of
/// them has a diagram, and no other text has; without one there is nothing.
pub proof fn law_update_takes_over(
    state: D2StateView,
    order: Seq<Seq<char>>,
    settings: D2SettingsView,
    binary: Option<Seq<u8>>,
    contents: Seq<char>,
)
    ensures
        ({
            let after = state_after(state, order, settings, binary);
            &&& after.settings == settings
            &&& after.binary == binary
            &&& after.binary_resolved
            &&& binary is Some ==> after.order == order
            &&& binary is None ==> after.order.len() == 0
            &&& after.cache.contains_key(contents) <==> binary is Some && order.contains(contents)
        }),
{
}

/// A diagram in the document before and after a change is kept exactly if neither the binary nor
/// the settings have changed; otherwise it begins to render anew.
pub proof fn law_kept_exactly_under_the_same_settings(
    state: D2StateView,
    order: Seq<Seq<char>>,
    settings: D2SettingsView,
    binary: Seq<u8>,
    contents: Seq<char>,
)
    requires
        order.contains(contents),
    ensures
        ({
            let entry = state_after(state, order, settings, Some(binary)).cache[contents];
            let kept = state.cache.contains_key(contents) && state.binary == Some(binary)
                && same_settings(settings, state.settings);
            &&& kept ==> entry == state.cache[contents]
            &&& !kept ==> entry.render_image is None
        }),
{
}

/// A diagram that begins to render anew shows meanwhile what was shown at the place where its text
/// stands first, if the number of diagrams is the same: the picture that rendering came out with
/// there, or else the one that was shown meanwhile there. Otherwise it shows nothing.
pub proof fn law_stand_in(
    state: D2StateView,
    order: Seq<Seq<char>>,
    settings: D2SettingsView,
    binary: Seq<u8>,
    place: int,
)
    requires
        0 <= place < order.len(),
        forall|i: int| 0 <= i < place ==> order[i] != order[place],
        !(state.cache.contains_key(order[place]) && state.binary == Some(binary) && same_settings(
            settings,
            state.settings,
        )),
    ensures
        ({
            let shown = state_after(
                state,
                order,
                settings,
                Some(binary),
            ).cache[order[place]].fallback_image;
            let had_one = order.len() == state.order.len() && state.cache.contains_key(
                state.order[place],
            );
            let previous = state.cache[state.order[place]];
            &&& !had_one ==> shown is None
            &&& had_one ==> (previous.render_image matches Some(Ok(image)) ==> shown == Some(image))
            &&& had_one && (previous.render_image is None || previous.render_image->0 is Err)
                ==> shown == previous.fallback_image
        }),
{
    assert(order.contains(order[place]));
    assert(is_first(order, order[place], place));
    lemma_first_at(order, order[place], place);
}

/// The picture for a place is the one that was shown there, if there was such a place and the
/// number of diagrams is the same.
pub proof fn law_fallback_for(
    index: int,
    old_order: Seq<Seq<char>>,
    new_order_len: nat,
    cache: Map<Seq<char>, CachedD2Diagram>,
)
    requires
        0 <= index,
    ensures
        ({
            let shown = fallback_for(index, old_order, new_order_len, cache);
            let had_one = old_order.len() == new_order_len && index < old_order.len()
                && cache.contains_key(old_order[index]);
            let previous = cache[old_order[index]];
            &&& !had_one ==> shown is None
            &&& had_one ==> (previous.render_image matches Some(Ok(image)) ==> shown == Some(image))
            &&& had_one && (previous.render_image is None || previous.render_image->0 is Err)
                ==> shown == previous.fallback_image
        }),
{
}

/// The binary is looked for again exactly if it has not been looked for, or the settings have
/// changed; and what is looked for is the configured path, or `d2`.
pub proof fn law_when_the_binary_is_looked_for(state: D2StateView, settings: D2SettingsView)
    ensures
        !state.binary_resolved ==> needs_search(state, settings),
        state.binary_resolved ==> needs_search(state, settings) == !same_settings(
            settings,
            state.settings,
        ),
        settings.path is Some ==> searched_binary(settings) == settings.path->0,
        settings.path is None ==> searched_binary(settings) == encode_utf8("d2"@),
{
}

/// A picture is let go exactly if it was held and no longer is.
pub proof fn law_let_go(
    before: Map<Seq<char>, CachedD2Diagram>,
    after: Map<Seq<char>, CachedD2Diagram>,
    image: RenderImage,
)
    ensures
        images_let_go(before, after).contains(image) <==> reachable_images(before).contains(image)
            && !reachable_images(after).contains(image),
{
}

/// Every diagram is rendered in the theme that the editor has, light or dark, whatever was there
/// before, with the binary and the arguments of the settings.
pub proof fn law_jobs_follow_the_editor(
    state: D2StateView,
    order: Seq<Seq<char>>,
    settings: D2SettingsView,
    binary: Seq<u8>,
    is_light: bool,
    i: int,
)
    requires
        0 <= i < jobs_for(state, order, settings, Some(binary), is_light).len(),
    ensures
        ({
            let job = jobs_for(state, order, settings, Some(binary), is_light)[i];
            &&& is_light ==> job.theme == 0
            &&& !is_light ==> job.theme == 200
            &&& job.binary == binary
            &&& job.arguments == settings.arguments
        }),
{
}

/// Diagrams are rendered in the order in which their texts stand first in the document.
pub proof fn law_jobs_in_document_order(
    state: D2StateView,
    order: Seq<Seq<char>>,
    settings: D2SettingsView,
    binary: Seq<u8>,
    is_light: bool,
    i: int,
    j: int,
)
    requires
        0 <= i < j < jobs_for(state, order, settings, Some(binary), is_light).len(),
    ensures
        exists|a: int, b: int|
            0 <= a < b < order.len() && #[trigger] order[a] == jobs_for(
                state,
                order,
                settings,
                Some(binary),
                is_light,
            )[i].contents && #[trigger] order[b] == jobs_for(
                state,
                order,
                settings,
                Some(binary),
                is_light,
            )[j].contents && (forall|k: int| 0 <= k < b ==> #[trigger] order[k] != order[b]) && (
            forall|k: int| 0 <= k < a ==> #[trigger] order[k] != order[a]),
{
    let kept = kept_cache(state, settings, Some(binary));
    let places = fresh_places(kept, order, order.len());
    lemma_fresh_places(kept, order, order.len());
    let a = places[i];
    let b = places[j];
    assert(is_first(order, order[a], a));
    assert(is_first(order, order[b], b));
}

/// An outcome counts exactly if its job has the current binary and arguments and the document still
/// has its text. Where it counts, the diagram has it from then on if it had none; all else stays.
pub proof fn law_outcomes_that_count(
    state: D2StateView,
    job: RenderJobView,
    result: Result<RenderImage, DiagramError>,
    other: Seq<char>,
)
    ensures
        ({
            let counts = state.binary == Some(job.binary) && job.arguments
                == state.settings.arguments && state.cache.contains_key(job.contents);
            let after = state_with_outcome(state, job, result);
            &&& is_awaited(state, job) == counts
            &&& !counts ==> after == state
            &&& counts && state.cache[job.contents].render_image is None
                ==> after.cache[job.contents].render_image == Some(result)
            &&& counts && state.cache[job.contents].render_image is Some
                ==> after.cache[job.contents] == state.cache[job.contents]
            &&& counts ==> after.cache[job.contents].fallback_image
                == state.cache[job.contents].fallback_image
            &&& after.cache.contains_key(other) == state.cache.contains_key(other)
            &&& other != job.contents ==> after.cache[other] == state.cache[other]
            &&& after.order == state.order
            &&& after.settings == state.settings
            &&& after.binary == state.binary
            &&& after.binary_resolved == state.binary_resolved
        }),
{
}

/// Every job that a change starts is awaited from then on: its outcome, picture or failure, becomes
/// that of its diagram.
pub proof fn law_started_jobs_are_awaited(
    state: D2StateView,
    order: Seq<Seq<char>>,
    settings: D2SettingsView,
    binary: Seq<u8>,
    is_light: bool,
    i: int,
    result: Result<RenderImage, DiagramError>,
)
    requires
        0 <= i < jobs_for(state, order, settings, Some(binary), is_light).len(),
    ensures
        ({
            let job = jobs_for(state, order, settings, Some(binary), is_light)[i];
            let after = state_after(state, order, settings, Some(binary));
            let finished = state_with_outcome(after, job, result);
            &&& is_awaited(after, job)
            &&& finished.cache.contains_key(job.contents)
            &&& finished.cache[job.contents].render_image == Some(result)
        }),
{
    let kept = kept_cache(state, settings, Some(binary));
    let places = fresh_places(kept, order, order.len());
    lemma_fresh_places(kept, order, order.len());
    let place = places[i];
    assert(order.contains(order[place]));
}

/// After a change the cache and the order tell of the same diagrams, whatever they told before.
pub proof fn law_update_restores_consistency(
    state: D2StateView,
    order: Seq<Seq<char>>,
    settings: D2SettingsView,
    binary: Option<Seq<u8>>,
)
    ensures
        consistent(state_after(state, order, settings, binary)),
{
}

/// Every picture held before a change of the document is either still held after it or let go, and
/// not both; and no picture is held after it that was not held before. So a change of the document
/// drops no picture that some diagram still holds on to, and forgets none.
pub proof fn law_pictures_are_kept_or_let_go(
    state: D2StateView,
    order: Seq<Seq<char>>,
    settings: D2SettingsView,
    binary: Option<Seq<u8>>,
)
    ensures
        ({
            let after = state_after(state, order, settings, binary).cache;
            let let_go = images_let_go(state.cache, after);
            &&& reachable_images(state.cache) == reachable_images(after).union(let_go)
            &&& reachable_images(after).disjoint(let_go)
        }),
{
    let before = state.cache;
    let after = state_after(state, order, settings, binary).cache;
    assert forall|image: RenderImage| #[trigger]
        reachable_images(after).contains(image) implies reachable_images(before).contains(
        image,
    ) by {
        let contents = choose|contents: Seq<char>|
            #![trigger after[contents]]
            after.contains_key(contents) && images_of(after[contents]).contains(image);
        if kept_cache(state, settings, binary).contains_key(contents) {
            assert(after[contents] == before[contents]);
        } else {
            let index = first_at(order, contents);
            let fallback = fallback_for(index, state.order, order.len(), before);
            assert(after[contents] == pending(fallback));
            let at = choose|at: int|
                0 <= at < images_of(after[contents]).len() && images_of(after[contents])[at]
                    == image;
            assert(fallback == Some(image));
            let previous = before[state.order[index]];
            assert(lasting_image(previous) == Some(image));
            assert(images_of(previous).contains(image)) by {
                if crate::cache::ready_image(previous) is Some {
                    assert(images_of(previous)[0] == image);
                } else {
                    assert(images_of(previous)[0] == image);
                }
            }
        }
    }
    assert(reachable_images(before) =~= reachable_images(after).union(
        images_let_go(before, after),
    ));
}

/// The places of the diagrams to render: each is where its text stands first, the text was not in
/// the cache, and every such place is there, in order.
pub proof fn lemma_fresh_places(
    cache: Map<Seq<char>, CachedD2Diagram>,
    order: Seq<Seq<char>>,
    n: nat,
)
    requires
        n <= order.len(),
    ensures
        forall|i: int|
            0 <= i < fresh_places(cache, order, n).len() ==> {
                let place = #[trigger] fresh_places(cache, order, n)[i];
                0 <= place < n && !cache.contains_key(order[place]) && is_first(
                    order,
                    order[place],
                    place,
                )
            },
        forall|place: int|
            0 <= place < n && !cache.contains_key(order[place]) && is_first(
                order,
                order[place],
                place,
            ) ==> #[trigger] fresh_places(cache, order, n).contains(place),
        forall|i: int, j: int|
            0 <= i < j < fresh_places(cache, order, n).len() ==> fresh_places(cache, order, n)[i]
                < fresh_places(cache, order, n)[j],
    decreases n,
{
    if n > 0 {
        let before = fresh_places(cache, order, (n - 1) as nat);
        let after = fresh_places(cache, order, n);
        lemma_fresh_places(cache, order, (n - 1) as nat);
        assert forall|place: int|
            0 <= place < n && !cache.contains_key(order[place]) && is_first(
                order,
                order[place],
                place,
            ) implies #[trigger] after.contains(place) by {
            if place < n - 1 {
                assert(before.contains(place));
                let i = choose|i: int| 0 <= i < before.len() && before[i] == place;
                assert(after[i] == place);
            } else {
                assert(after[before.len() as int] == place);
            }
        }
    }
}

/// A text is rendered after a change exactly if it is in the document and no diagram is kept for
/// it, and then once: a diagram that was rendered with the same settings and the same binary is
/// not rendered again.
pub proof fn law_only_new_texts_are_rendered(
    state: D2StateView,
    order: Seq<Seq<char>>,
    settings: D2SettingsView,
    binary: Seq<u8>,
    is_light: bool,
    contents: Seq<char>,
)
    ensures
        ({
            let jobs = jobs_for(state, order, settings, Some(binary), is_light);
            &&& (exists|i: int| 0 <= i < jobs.len() && (#[trigger] jobs[i]).contents == contents)
                <==> order.contains(contents) && !(state.cache.contains_key(contents) && reusable(
                state,
                settings,
                Some(binary),
            ))
            &&& forall|i: int, j: int|
                0 <= i < jobs.len() && 0 <= j < jobs.len() && (#[trigger] jobs[i]).contents
                    == contents && (#[trigger] jobs[j]).contents == contents ==> i == j
        }),
{
    let jobs = jobs_for(state, order, settings, Some(binary), is_light);
    let kept = kept_cache(state, settings, Some(binary));
    let places = fresh_places(kept, order, order.len());
    lemma_fresh_places(kept, order, order.len());
    assert(jobs.len() == places.len());
    assert forall|i: int| 0 <= i < jobs.len() implies (#[trigger] jobs[i]).contents
        == order[places[i]] by {}
    if order.contains(contents) && !kept.contains_key(contents) {
        let somewhere = choose|i: int| 0 <= i < order.len() && order[i] == contents;
        lemma_first_exists(order, contents, somewhere);
        let place = first_at(order, contents);
        assert(places.contains(place));
        let i = choose|i: int| 0 <= i < places.len() && places[i] == place;
        assert(jobs[i].contents == contents);
    }
    assert forall|i: int, j: int|
        0 <= i < jobs.len() && 0 <= j < jobs.len() && (#[trigger] jobs[i]).contents == contents && (
        #[trigger] jobs[j]).contents == contents implies i == j by {
        lemma_first_at(order, contents, places[i]);
        lemma_first_at(order, contents, places[j]);
    }
}

/// A diagram whose text is in the document before and after a change is left as it is, if neither
/// the settings nor the binary have changed.
pub proof fn law_unchanged_diagrams_stay(
    state: D2StateView,
    order: Seq<Seq<char>>,
    settings: D2SettingsView,
    binary: Seq<u8>,
    contents: Seq<char>,
)
    requires
        reusable(state, settings, Some(binary)),
        state.cache.contains_key(contents),
        order.contains(contents),
    ensures
        state_after(state, order, settings, Some(binary)).cache.contains_key(contents),
        state_after(state, order, settings, Some(binary)).cache[contents] == state.cache[contents],
{
}

/// After a change every diagram is either one that was kept under the same settings and the same
/// binary, or one that is yet to be rendered, with the arguments of the new settings and the new
/// binary.
pub proof fn law_diagrams_are_kept_or_rendered_anew(
    state: D2StateView,
    order: Seq<Seq<char>>,
    settings: D2SettingsView,
    binary: Seq<u8>,
    is_light: bool,
    contents: Seq<char>,
)
    requires
        state_after(state, order, settings, Some(binary)).cache.contains_key(contents),
    ensures
        ({
            let entry = state_after(state, order, settings, Some(binary)).cache[contents];
            let jobs = jobs_for(state, order, settings, Some(binary), is_light);
            ||| reusable(state, settings, Some(binary)) && state.cache.contains_key(contents)
                && entry == state.cache[contents]
            ||| entry.render_image is None && exists|i: int|
                0 <= i < jobs.len() && (#[trigger] jobs[i]).contents == contents
                    && jobs[i].arguments == settings.arguments && jobs[i].binary == binary
        }),
{
    let jobs = jobs_for(state, order, settings, Some(binary), is_light);
    if !kept_cache(state, settings, Some(binary)).contains_key(contents) {
        law_only_new_texts_are_rendered(state, order, settings, binary, is_light, contents);
        let i = choose|i: int| 0 <= i < jobs.len() && (#[trigger] jobs[i]).contents == contents;
        assert(jobs[i].arguments == settings.arguments && jobs[i].binary == binary);
    }
}

/// The job that was last started for each text, once `jobs` have been started after those in
/// `made`.
pub open spec fn with_jobs(
    made: Map<Seq<char>, RenderJobView>,
    jobs: Seq<RenderJobView>,
) -> Map<Seq<char>, RenderJobView>
    decreases jobs.len(),
{
    if jobs.len() == 0 {
        made
    } else {
        with_jobs(made, jobs.drop_last()).insert(jobs.last().contents, jobs.last())
    }
}

/// The binary of `state` and the arguments in its settings are those that each of its diagrams is
/// rendered with, where `made` tells the job that was last started for each text.
pub open spec fn made_with_current(
    state: D2StateView,
    made: Map<Seq<char>, RenderJobView>,
) -> bool {
    forall|contents: Seq<char>| #[trigger]
        state.cache.contains_key(contents) ==> made.contains_key(contents)
            && made[contents].arguments == state.settings.arguments && state.binary == Some(
            made[contents].binary,
        )
}

/// The last job for a text is the one among `jobs`, if there is one, or else the one before.
proof fn lemma_with_jobs(
    made: Map<Seq<char>, RenderJobView>,
    jobs: Seq<RenderJobView>,
    contents: Seq<char>,
)
    ensures
        (exists|i: int|
            0 <= i < jobs.len() && (#[trigger] jobs[i]).contents == contents && with_jobs(
                made,
                jobs,
            ).contains_key(contents) && with_jobs(made, jobs)[contents] == jobs[i]) || ((forall|
            i: int,
        |
            0 <= i < jobs.len() ==> (#[trigger] jobs[i]).contents != contents) && with_jobs(
            made,
            jobs,
        ).contains_key(contents) == made.contains_key(contents) && with_jobs(made, jobs)[contents]
            == made[contents]),
    decreases jobs.len(),
{
    if jobs.len() > 0 {
        let before = jobs.drop_last();
        lemma_with_jobs(made, before, contents);
        if jobs.last().contents == contents {
            assert(jobs[jobs.len() - 1].contents == contents);
        } else if exists|i: int|
            0 <= i < before.len() && (#[trigger] before[i]).contents == contents && with_jobs(
                made,
                before,
            )[contents] == before[i] && with_jobs(made, before).contains_key(contents) {
            let i = choose|i: int|
                0 <= i < before.len() && (#[trigger] before[i]).contents == contents && with_jobs(
                    made,
                    before,
                )[contents] == before[i] && with_jobs(made, before).contains_key(contents);
            assert(jobs[i] == before[i]);
        } else {
            assert forall|i: int| 0 <= i < jobs.len() implies (#[trigger] jobs[i]).contents
                != contents by {
                if i < before.len() {
                    assert(before[i] == jobs[i]);
                }
            }
        }
    }
}

/// The binary and the arguments that the diagrams are kept with are always those that every one of
/// them is rendered with: if that held before a change it holds after it, once the jobs that the
/// change asks for have been started.
pub proof fn law_diagrams_are_made_with_current_settings(
    state: D2StateView,
    made: Map<Seq<char>, RenderJobView>,
    order: Seq<Seq<char>>,
    settings: D2SettingsView,
    binary: Option<Seq<u8>>,
    is_light: bool,
)
    requires
        made_with_current(state, made),
    ensures
        made_with_current(
            state_after(state, order, settings, binary),
            with_jobs(made, jobs_for(state, order, settings, binary, is_light)),
        ),
{
    let after = state_after(state, order, settings, binary);
    let jobs = jobs_for(state, order, settings, binary, is_light);
    assert forall|contents: Seq<char>| #[trigger] after.cache.contains_key(contents) implies {
        &&& with_jobs(made, jobs).contains_key(contents)
        &&& with_jobs(made, jobs)[contents].arguments == after.settings.arguments
        &&& after.binary == Some(with_jobs(made, jobs)[contents].binary)
    } by {
        lemma_with_jobs(made, jobs, contents);
        law_diagrams_are_kept_or_rendered_anew(
            state,
            order,
            settings,
            binary->0,
            is_light,
            contents,
        );
        assert forall|i: int| 0 <= i < jobs.len() implies (#[trigger] jobs[i]).arguments
            == settings.arguments && binary == Some(jobs[i].binary) by {}
    }
}

/// An outcome of a job leaves it so, and counts only where the job renders with the binary and the
/// arguments that the diagram is rendered with now: what comes of a job that a change of settings
/// has superseded changes nothing.
pub proof fn law_only_current_jobs_count(
    state: D2StateView,
    made: Map<Seq<char>, RenderJobView>,
    job: RenderJobView,
    result: Result<RenderImage, DiagramError>,
)
    requires
        made_with_current(state, made),
    ensures
        made_with_current(state_with_outcome(state, job, result), made),
        state_with_outcome(state, job, result) == state || (made.contains_key(job.contents)
            && job.arguments == made[job.contents].arguments && job.binary
            == made[job.contents].binary),
{
    let after = state_with_outcome(state, job, result);
    assert forall|k: Seq<char>| #[trigger]
        after.cache.contains_key(k) implies state.cache.contains_key(k) by {}
}

/// While the settings and the binary stay, a change of the document lets go of exactly the pictures
/// of diagrams that leave it, but for those that a diagram of the document still holds on to.
pub proof fn law_pictures_leave_with_their_diagrams(
    state: D2StateView,
    order: Seq<Seq<char>>,
    settings: D2SettingsView,
    binary: Seq<u8>,
    image: RenderImage,
)
    requires
        reusable(state, settings, Some(binary)),
    ensures
        ({
            let after = state_after(state, order, settings, Some(binary)).cache;
            images_let_go(state.cache, after).contains(image) <==> !reachable_images(
                after,
            ).contains(image) && exists|contents: Seq<char>|
                #![trigger state.cache[contents]]
                state.cache.contains_key(contents) && !order.contains(contents) && images_of(
                    state.cache[contents],
                ).contains(image)
        }),
{
    let after = state_after(state, order, settings, Some(binary)).cache;
    if images_let_go(state.cache, after).contains(image) {
        let contents = choose|contents: Seq<char>|
            #![trigger state.cache[contents]]
            state.cache.contains_key(contents) && images_of(state.cache[contents]).contains(image);
        if order.contains(contents) {
            assert(after[contents] == state.cache[contents]);
        }
    }
}

/// A change that changes nothing does nothing: no search for the binary, nothing to render,
/// nothing to drop, and the same diagrams.
pub proof fn law_update_twice_is_update_once(
    state: D2StateView,
    order: Seq<Seq<char>>,
    settings: D2SettingsView,
    binary: Option<Seq<u8>>,
    is_light: bool,
)
    ensures
        ({
            let once = state_after(state, order, settings, binary);
            let twice = state_after(once, order, settings, once.binary);
            &&& !needs_search(once, settings)
            &&& twice == once
            &&& jobs_for(once, order, settings, once.binary, is_light).len() == 0
            &&& images_let_go(once.cache, twice.cache) == Set::<RenderImage>::empty()
        }),
{
    let once = state_after(state, order, settings, binary);
    let twice = state_after(once, order, settings, once.binary);
    assert(twice.cache =~= once.cache);
    assert(images_let_go(once.cache, twice.cache) =~= Set::empty());
    if binary is Some {
        let places = fresh_places(once.cache, order, order.len());
        lemma_fresh_places(once.cache, order, order.len());
        if places.len() > 0 {
            let place = places[0];
            assert(order.contains(order[place]));
            assert(once.cache.contains_key(order[place]));
        }
    }
}

/// The settings that the diagrams were brought up to date with are not stale.
pub proof fn law_settings_are_current_after_update(
    state: D2StateView,
    order: Seq<Seq<char>>,
    settings: D2SettingsView,
    binary: Option<Seq<u8>>,
)
    ensures
        same_settings(state_after(state, order, settings, binary).settings, settings),
{
}

/// Without a `d2` binary there are no diagrams, nothing is rendered, and every picture is let go.
pub proof fn law_nothing_without_binary(
    state: D2StateView,
    order: Seq<Seq<char>>,
    settings: D2SettingsView,
    is_light: bool,
)
    ensures
        ({
            let after = state_after(state, order, settings, None);
            &&& after.cache == Map::<Seq<char>, CachedD2Diagram>::empty()
            &&& jobs_for(state, order, settings, None, is_light).len() == 0
            &&& images_let_go(state.cache, after.cache) == reachable_images(state.cache)
        }),
{
    let after = state_after(state, order, settings, None);
    assert(reachable_images(after.cache) =~= Set::empty());
    assert(images_let_go(state.cache, after.cache) =~= reachable_images(state.cache));
}

/// After a change that leaves the number of diagrams as it was, a diagram that is rendered anew
/// shows, until it is rendered, the picture that was shown at its place before.
pub proof fn law_edit_keeps_the_picture(
    state: D2StateView,
    order: Seq<Seq<char>>,
    settings: D2SettingsView,
    binary: Seq<u8>,
    place: int,
)
    requires
        consistent(state),
        order.len() == state.order.len(),
        0 <= place < order.len(),
        !kept_cache(state, settings, Some(binary)).contains_key(order[place]),
        is_first(order, order[place], place),
    ensures
        state.cache.contains_key(state.order[place]),
        state_after(state, order, settings, Some(binary)).cache.contains_key(order[place]),
        state_after(state, order, settings, Some(binary)).cache[order[place]] == pending(
            lasting_image(state.cache[state.order[place]]),
        ),
{
    assert(state.order.contains(state.order[place]));
    assert(order.contains(order[place]));
    lemma_first_at(order, order[place], place);
}

/// The picture outlasts edits that follow each other before anything is rendered.
pub proof fn law_rapid_edits_keep_the_picture(
    state: D2StateView,
    first: Seq<Seq<char>>,
    second: Seq<Seq<char>>,
    settings: D2SettingsView,
    binary: Seq<u8>,
    place: int,
)
    requires
        consistent(state),
        first.len() == state.order.len(),
        second.len() == first.len(),
        0 <= place < first.len(),
        !state.cache.contains_key(first[place]),
        is_first(first, first[place], place),
        !first.contains(second[place]),
        is_first(second, second[place], place),
    ensures
        ({
            let middle = state_after(state, first, settings, Some(binary));
            let after = state_after(middle, second, settings, Some(binary));
            &&& after.cache.contains_key(second[place])
            &&& lasting_image(after.cache[second[place]]) == lasting_image(
                state.cache[state.order[place]],
            )
        }),
{
    let middle = state_after(state, first, settings, Some(binary));
    law_edit_keeps_the_picture(state, first, settings, binary, place);
    law_update_restores_consistency(state, first, settings, Some(binary));
    law_edit_keeps_the_picture(middle, second, settings, binary, place);
}

/// Where the number of diagrams changes, a diagram that is rendered anew begins without a picture.
pub proof fn law_no_picture_when_the_number_changes(
    state: D2StateView,
    order: Seq<Seq<char>>,
    settings: D2SettingsView,
    binary: Seq<u8>,
    contents: Seq<char>,
)
    requires
        order.len() != state.order.len(),
        order.contains(contents),
        !kept_cache(state, settings, Some(binary)).contains_key(contents),
    ensures
        state_after(state, order, settings, Some(binary)).cache[contents] == pending(None),
{
}

/// The first outcome of rendering stays; a later one changes nothing.
pub proof fn law_first_outcome_stays(
    diagram: CachedD2Diagram,
    first: Result<RenderImage, DiagramError>,
    later: Result<RenderImage, DiagramError>,
)
    requires
        diagram.render_image is None,
    ensures
        completed(diagram, first).render_image == Some(first),
        completed(completed(diagram, first), later) == completed(diagram, first),
{
}

} // verus!
