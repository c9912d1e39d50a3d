//! Renders Mermaid diagrams with `merman`.

use crate::json::{empty_object, insert_member, json_members, Json, JsonMember};
use crate::text::{decimal, digit, law_decimal_injective, to_decimal};
use vstd::prelude::*;

verus! {

#[verifier::external_type_specification]
#[verifier::external_body]
pub struct ExMermaidConfig(merman::MermaidConfig);

#[verifier::external_type_specification]
#[verifier::external_body]
pub struct ExSvgPipeline(merman::svg::SvgPipeline);

#[verifier::external_type_specification]
#[verifier::external_body]
pub struct ExTextMeasurementPolicy(merman::svg::TextMeasurementPolicy);

#[verifier::external_type_specification]
#[verifier::external_body]
pub struct ExRenderError(merman::RenderError);

/// The members of the JSON object that a configuration is made from, which
/// `merman::MermaidConfig::as_value` shows.
pub uninterp spec fn config_members(config: merman::MermaidConfig) -> Map<Seq<char>, Json>;

/// A pass over an SVG document that a pipeline makes besides those of its preset.
pub enum SvgPass {
    /// Takes out the `!important` declarations that are there.
    StripExistingImportant,
    Other,
}

/// Whether the preset of a pipeline, which `merman::svg::SvgPipeline::preset` tells, is the one
/// for rasterizers.
pub uninterp spec fn is_raster_safe(pipeline: merman::svg::SvgPipeline) -> bool;

/// The passes that were added to a pipeline, in the order in which they are made.
pub uninterp spec fn added_passes(pipeline: merman::svg::SvgPipeline) -> Seq<SvgPass>;

/// Whether `merman`, asked for the SVG document of `source` with these settings, may come out
/// with `outcome`. How wide text is lies with the measurement policy, which may ask the host.
pub uninterp spec fn merman_may_render(
    source: Seq<char>,
    diagram_id: Seq<char>,
    raster_safe: bool,
    passes: Seq<SvgPass>,
    config: Map<Seq<char>, Json>,
    policy: merman::svg::TextMeasurementPolicy,
    outcome: Result<Option<Seq<char>>, merman::RenderError>,
) -> bool;

/// `merman::MermaidConfig::from_value`: a configuration made from a JSON object.
#[verifier::external_body]
fn config_from_object(object: serde_json::Map<String, serde_json::Value>) -> (r:
    merman::MermaidConfig)
    ensures
        config_members(r) == json_members(object),
{
    merman::MermaidConfig::from_value(serde_json::Value::Object(object))
}

/// `merman::svg::SvgPipeline::resvg_safe`: the preset for rasterizers, and nothing besides.
#[verifier::external_body]
fn raster_safe_pipeline() -> (r: merman::svg::SvgPipeline)
    ensures
        is_raster_safe(r),
        added_passes(r) == Seq::<SvgPass>::empty(),
{
    merman::svg::SvgPipeline::resvg_safe()
}

/// `merman::svg::SvgPipeline::with_postprocessor` with
/// `merman::svg::CssOverridePostprocessor::strip_existing_important`: the same preset, and one
/// more pass behind those that were added before.
#[verifier::external_body]
fn strip_existing_important(pipeline: merman::svg::SvgPipeline) -> (r: merman::svg::SvgPipeline)
    ensures
        is_raster_safe(r) == is_raster_safe(pipeline),
        added_passes(r) == added_passes(pipeline).push(SvgPass::StripExistingImportant),
{
    pipeline.with_postprocessor(merman::svg::CssOverridePostprocessor::strip_existing_important())
}

/// `merman::Renderer::render` for the SVG target, with `merman`'s defaults for all that is not an
/// argument here: the document, or `None` where the output holds none, or an error.
///
/// What the document is takes `merman` itself to say. It is only said that the outcome is one of
/// asking `merman` with exactly these arguments.
#[verifier::external_body]
fn render_svg(
    source: &str,
    diagram_id: String,
    pipeline: merman::svg::SvgPipeline,
    config: merman::MermaidConfig,
    policy: merman::svg::TextMeasurementPolicy,
) -> (r: Result<Option<String>, merman::RenderError>)
    ensures
        merman_may_render(
            source@,
            diagram_id@,
            is_raster_safe(pipeline),
            added_passes(pipeline),
            config_members(config),
            policy,
            outcome_view(r),
        ),
{
    let request = merman::SvgRequest {
        environment: merman::SvgEnvironment::deterministic().with_text_measurement_policy(policy),
        options: merman::svg::SvgRenderOptions { diagram_id: Some(diagram_id), ..Default::default() },
        pipeline: Some(pipeline),
        ..Default::default()
    };
    let request = merman::RenderRequest::svg(source, merman::OperationControl::new(), request);
    let engine = merman::Engine::new().with_site_config(config);
    match merman::Renderer::new().with_engine(engine).render(request)? {
        merman::RenderOutput::Svg(Some(output)) => Ok(Some(output.into_parts().0)),
        _ => Ok(None),
    }
}

/// The colors and the font of Mermaid diagrams. Colors are in the notation of CSS.
#[derive(Debug)]
pub struct MermaidTheme {
    pub dark_mode: bool,
    /// The font families of the text, in the notation of CSS.
    pub svg_font_family: String,
    /// The fill of nodes.
    pub primary_color: String,
    /// The text in nodes.
    pub primary_text_color: String,
    /// The border of nodes.
    pub primary_border_color: String,
    /// Lines and arrows.
    pub line_color: String,
    /// The second fill.
    pub secondary_color: String,
    /// The third fill.
    pub tertiary_color: String,
    /// What is behind the diagram.
    pub background: String,
    /// The fill of groups.
    pub cluster_background: String,
    /// The border of groups.
    pub cluster_border: String,
    /// What is behind the labels of lines.
    pub edge_label_background: String,
    /// Text outside of nodes.
    pub text_color: String,
    /// The fill of notes.
    pub note_background: String,
    /// The border of notes.
    pub note_border: String,
    /// The fill of actors.
    pub actor_background: String,
    /// The border of actors.
    pub actor_border: String,
    /// The fill of activations.
    pub activation_background: String,
    /// The border of activations.
    pub activation_border: String,
    /// The fill of odd rows of attributes.
    pub er_attr_bg_odd: String,
    /// The fill of even rows of attributes.
    pub er_attr_bg_even: String,
    /// The colors of branches, slices and other rows of things.
    pub git_branch_colors: [String; 8],
    /// The colors of the text on these.
    pub git_branch_label_colors: [String; 8],
}

/// The theme variables of Mermaid, but for the rows of colors.
pub open spec fn base_variables(theme: MermaidTheme) -> Map<Seq<char>, Json> {
    Map::empty()
        .insert("primaryColor"@, Json::Text(theme.primary_color@))
        .insert("primaryTextColor"@, Json::Text(theme.primary_text_color@))
        .insert("primaryBorderColor"@, Json::Text(theme.primary_border_color@))
        .insert("lineColor"@, Json::Text(theme.line_color@))
        .insert("secondaryColor"@, Json::Text(theme.secondary_color@))
        .insert("secondaryTextColor"@, Json::Text(theme.text_color@))
        .insert("tertiaryColor"@, Json::Text(theme.tertiary_color@))
        .insert("tertiaryTextColor"@, Json::Text(theme.text_color@))
        .insert("background"@, Json::Text(theme.background@))
        .insert("mainBkg"@, Json::Text(theme.primary_color@))
        .insert("nodeBorder"@, Json::Text(theme.primary_border_color@))
        .insert("nodeTextColor"@, Json::Text(theme.primary_text_color@))
        .insert("clusterBkg"@, Json::Text(theme.cluster_background@))
        .insert("clusterBorder"@, Json::Text(theme.cluster_border@))
        .insert("titleColor"@, Json::Text(theme.text_color@))
        .insert("edgeLabelBackground"@, Json::Text(theme.edge_label_background@))
        .insert("textColor"@, Json::Text(theme.text_color@))
        .insert("fontFamily"@, Json::Text(theme.svg_font_family@))
        .insert("noteBkgColor"@, Json::Text(theme.note_background@))
        .insert("noteBorderColor"@, Json::Text(theme.note_border@))
        .insert("noteTextColor"@, Json::Text(theme.text_color@))
        .insert("actorBkg"@, Json::Text(theme.actor_background@))
        .insert("actorBorder"@, Json::Text(theme.actor_border@))
        .insert("actorTextColor"@, Json::Text(theme.primary_text_color@))
        .insert("labelTextColor"@, Json::Text(theme.text_color@))
        .insert("loopTextColor"@, Json::Text(theme.text_color@))
        .insert("signalColor"@, Json::Text(theme.text_color@))
        .insert("signalTextColor"@, Json::Text(theme.text_color@))
        .insert("activationBkgColor"@, Json::Text(theme.activation_background@))
        .insert("activationBorderColor"@, Json::Text(theme.activation_border@))
        .insert("classText"@, Json::Text(theme.text_color@))
        .insert("labelColor"@, Json::Text(theme.primary_text_color@))
        .insert("attributeBackgroundColorOdd"@, Json::Text(theme.er_attr_bg_odd@))
        .insert("attributeBackgroundColorEven"@, Json::Text(theme.er_attr_bg_even@))
        .insert("pieTitleTextColor"@, Json::Text(theme.text_color@))
        .insert("pieSectionTextColor"@, Json::Text(theme.text_color@))
        .insert("pieLegendTextColor"@, Json::Text(theme.text_color@))
        .insert("pieStrokeColor"@, Json::Text(theme.primary_border_color@))
        .insert("pieOuterStrokeColor"@, Json::Text(theme.primary_border_color@))
        .insert("quadrant1Fill"@, Json::Text(theme.primary_color@))
        .insert("quadrant2Fill"@, Json::Text(theme.primary_color@))
        .insert("quadrant3Fill"@, Json::Text(theme.primary_color@))
        .insert("quadrant4Fill"@, Json::Text(theme.primary_color@))
        .insert("quadrant1TextFill"@, Json::Text(theme.text_color@))
        .insert("quadrant2TextFill"@, Json::Text(theme.text_color@))
        .insert("quadrant3TextFill"@, Json::Text(theme.text_color@))
        .insert("quadrant4TextFill"@, Json::Text(theme.text_color@))
        .insert("quadrantPointFill"@, Json::Text(theme.line_color@))
        .insert("quadrantPointTextFill"@, Json::Text(theme.text_color@))
        .insert("quadrantTitleFill"@, Json::Text(theme.text_color@))
        .insert("quadrantXAxisTextFill"@, Json::Text(theme.text_color@))
        .insert("quadrantYAxisTextFill"@, Json::Text(theme.text_color@))
        .insert("quadrantExternalBorderStrokeFill"@, Json::Text(theme.primary_border_color@))
        .insert("quadrantInternalBorderStrokeFill"@, Json::Text(theme.primary_border_color@))
}

/// `variables` with the first `n` colors of the theme's row of colors.
pub open spec fn with_branches(
    variables: Map<Seq<char>, Json>,
    theme: MermaidTheme,
    n: nat,
) -> Map<Seq<char>, Json>
    decreases n,
{
    if n == 0 {
        variables
    } else {
        let i = (n - 1) as nat;
        with_branches(variables, theme, i)
            .insert("cScale"@ + decimal(i), Json::Text(theme.git_branch_colors@[i as int]@))
            .insert(
                "cScaleLabel"@ + decimal(i),
                Json::Text(theme.git_branch_label_colors@[i as int]@),
            )
            .insert("pie"@ + decimal(n), Json::Text(theme.git_branch_colors@[i as int]@))
    }
}

/// The theme variables of Mermaid.
pub open spec fn theme_variables(theme: MermaidTheme) -> Map<Seq<char>, Json> {
    with_branches(base_variables(theme), theme, 8)
}

/// The configuration of Mermaid. The rasterizer can't paint HTML labels; they are replaced by
/// wrapped SVG text later.
pub open spec fn site_config(theme: MermaidTheme) -> Map<Seq<char>, Json> {
    Map::empty()
        .insert("theme"@, Json::Text("base"@))
        .insert("darkMode"@, Json::Flag(theme.dark_mode))
        .insert("fontFamily"@, Json::Text(theme.svg_font_family@))
        .insert("htmlLabels"@, Json::Flag(true))
        .insert(
            "flowchart"@,
            Json::Object(
                Map::empty()
                    .insert("htmlLabels"@, Json::Flag(true))
                    .insert("padding"@, Json::Number(16)),
            ),
        )
        .insert("themeVariables"@, Json::Object(theme_variables(theme)))
}

/// A number by which the names of theme variables are told apart: from their length and two of
/// their characters.
#[verifier::opaque]
spec fn name_tag(name: Seq<char>) -> int {
    let last = name.len() - 1;
    let early = if last < 2 {
        last
    } else {
        2
    };
    let late = if last < 8 {
        last
    } else {
        8
    };
    name.len() * 1000000 + (name[early] as int) * 1000 + (name[late] as int)
}

/// The numbers of the names of theme variables, but for the rows of colors.
proof fn lemma_name_tags()
    ensures
        name_tag("primaryColor"@) == 12105111,
        name_tag("primaryTextColor"@) == 16105101,
        name_tag("primaryBorderColor"@) == 18105111,
        name_tag("lineColor"@) == 9110114,
        name_tag("secondaryColor"@) == 14099121,
        name_tag("secondaryTextColor"@) == 18099121,
        name_tag("tertiaryColor"@) == 13114067,
        name_tag("tertiaryTextColor"@) == 17114084,
        name_tag("background"@) == 10099110,
        name_tag("mainBkg"@) == 7105103,
        name_tag("nodeBorder"@) == 10100101,
        name_tag("nodeTextColor"@) == 13100067,
        name_tag("clusterBkg"@) == 10117107,
        name_tag("clusterBorder"@) == 13117111,
        name_tag("titleColor"@) == 10116111,
        name_tag("edgeLabelBackground"@) == 19103108,
        name_tag("textColor"@) == 9120114,
        name_tag("fontFamily"@) == 10110108,
        name_tag("noteBkgColor"@) == 12116111,
        name_tag("noteBorderColor"@) == 15116101,
        name_tag("noteTextColor"@) == 13116067,
        name_tag("actorBkg"@) == 8116103,
        name_tag("actorBorder"@) == 11116100,
        name_tag("actorTextColor"@) == 14116116,
        name_tag("labelTextColor"@) == 14098116,
        name_tag("loopTextColor"@) == 13111067,
        name_tag("signalColor"@) == 11103108,
        name_tag("signalTextColor"@) == 15103120,
        name_tag("activationBkgColor"@) == 18116111,
        name_tag("activationBorderColor"@) == 21116111,
        name_tag("classText"@) == 9097116,
        name_tag("labelColor"@) == 10098111,
        name_tag("attributeBackgroundColorOdd"@) == 27116101,
        name_tag("attributeBackgroundColorEven"@) == 28116101,
        name_tag("pieTitleTextColor"@) == 17101084,
        name_tag("pieSectionTextColor"@) == 19101111,
        name_tag("pieLegendTextColor"@) == 18101100,
        name_tag("pieStrokeColor"@) == 14101101,
        name_tag("pieOuterStrokeColor"@) == 19101083,
        name_tag("quadrant1Fill"@) == 13097049,
        name_tag("quadrant2Fill"@) == 13097050,
        name_tag("quadrant3Fill"@) == 13097051,
        name_tag("quadrant4Fill"@) == 13097052,
        name_tag("quadrant1TextFill"@) == 17097049,
        name_tag("quadrant2TextFill"@) == 17097050,
        name_tag("quadrant3TextFill"@) == 17097051,
        name_tag("quadrant4TextFill"@) == 17097052,
        name_tag("quadrantPointFill"@) == 17097080,
        name_tag("quadrantPointTextFill"@) == 21097080,
        name_tag("quadrantTitleFill"@) == 17097084,
        name_tag("quadrantXAxisTextFill"@) == 21097088,
        name_tag("quadrantYAxisTextFill"@) == 21097089,
        name_tag("quadrantExternalBorderStrokeFill"@) == 32097069,
        name_tag("quadrantInternalBorderStrokeFill"@) == 32097073,
{
    reveal(name_tag);
    assert(name_tag("primaryColor"@) == 12105111) by {
        reveal_strlit("primaryColor");
    }
    assert(name_tag("primaryTextColor"@) == 16105101) by {
        reveal_strlit("primaryTextColor");
    }
    assert(name_tag("primaryBorderColor"@) == 18105111) by {
        reveal_strlit("primaryBorderColor");
    }
    assert(name_tag("lineColor"@) == 9110114) by {
        reveal_strlit("lineColor");
    }
    assert(name_tag("secondaryColor"@) == 14099121) by {
        reveal_strlit("secondaryColor");
    }
    assert(name_tag("secondaryTextColor"@) == 18099121) by {
        reveal_strlit("secondaryTextColor");
    }
    assert(name_tag("tertiaryColor"@) == 13114067) by {
        reveal_strlit("tertiaryColor");
    }
    assert(name_tag("tertiaryTextColor"@) == 17114084) by {
        reveal_strlit("tertiaryTextColor");
    }
    assert(name_tag("background"@) == 10099110) by {
        reveal_strlit("background");
    }
    assert(name_tag("mainBkg"@) == 7105103) by {
        reveal_strlit("mainBkg");
    }
    assert(name_tag("nodeBorder"@) == 10100101) by {
        reveal_strlit("nodeBorder");
    }
    assert(name_tag("nodeTextColor"@) == 13100067) by {
        reveal_strlit("nodeTextColor");
    }
    assert(name_tag("clusterBkg"@) == 10117107) by {
        reveal_strlit("clusterBkg");
    }
    assert(name_tag("clusterBorder"@) == 13117111) by {
        reveal_strlit("clusterBorder");
    }
    assert(name_tag("titleColor"@) == 10116111) by {
        reveal_strlit("titleColor");
    }
    assert(name_tag("edgeLabelBackground"@) == 19103108) by {
        reveal_strlit("edgeLabelBackground");
    }
    assert(name_tag("textColor"@) == 9120114) by {
        reveal_strlit("textColor");
    }
    assert(name_tag("fontFamily"@) == 10110108) by {
        reveal_strlit("fontFamily");
    }
    assert(name_tag("noteBkgColor"@) == 12116111) by {
        reveal_strlit("noteBkgColor");
    }
    assert(name_tag("noteBorderColor"@) == 15116101) by {
        reveal_strlit("noteBorderColor");
    }
    assert(name_tag("noteTextColor"@) == 13116067) by {
        reveal_strlit("noteTextColor");
    }
    assert(name_tag("actorBkg"@) == 8116103) by {
        reveal_strlit("actorBkg");
    }
    assert(name_tag("actorBorder"@) == 11116100) by {
        reveal_strlit("actorBorder");
    }
    assert(name_tag("actorTextColor"@) == 14116116) by {
        reveal_strlit("actorTextColor");
    }
    assert(name_tag("labelTextColor"@) == 14098116) by {
        reveal_strlit("labelTextColor");
    }
    assert(name_tag("loopTextColor"@) == 13111067) by {
        reveal_strlit("loopTextColor");
    }
    assert(name_tag("signalColor"@) == 11103108) by {
        reveal_strlit("signalColor");
    }
    assert(name_tag("signalTextColor"@) == 15103120) by {
        reveal_strlit("signalTextColor");
    }
    assert(name_tag("activationBkgColor"@) == 18116111) by {
        reveal_strlit("activationBkgColor");
    }
    assert(name_tag("activationBorderColor"@) == 21116111) by {
        reveal_strlit("activationBorderColor");
    }
    assert(name_tag("classText"@) == 9097116) by {
        reveal_strlit("classText");
    }
    assert(name_tag("labelColor"@) == 10098111) by {
        reveal_strlit("labelColor");
    }
    assert(name_tag("attributeBackgroundColorOdd"@) == 27116101) by {
        reveal_strlit("attributeBackgroundColorOdd");
    }
    assert(name_tag("attributeBackgroundColorEven"@) == 28116101) by {
        reveal_strlit("attributeBackgroundColorEven");
    }
    assert(name_tag("pieTitleTextColor"@) == 17101084) by {
        reveal_strlit("pieTitleTextColor");
    }
    assert(name_tag("pieSectionTextColor"@) == 19101111) by {
        reveal_strlit("pieSectionTextColor");
    }
    assert(name_tag("pieLegendTextColor"@) == 18101100) by {
        reveal_strlit("pieLegendTextColor");
    }
    assert(name_tag("pieStrokeColor"@) == 14101101) by {
        reveal_strlit("pieStrokeColor");
    }
    assert(name_tag("pieOuterStrokeColor"@) == 19101083) by {
        reveal_strlit("pieOuterStrokeColor");
    }
    assert(name_tag("quadrant1Fill"@) == 13097049) by {
        reveal_strlit("quadrant1Fill");
    }
    assert(name_tag("quadrant2Fill"@) == 13097050) by {
        reveal_strlit("quadrant2Fill");
    }
    assert(name_tag("quadrant3Fill"@) == 13097051) by {
        reveal_strlit("quadrant3Fill");
    }
    assert(name_tag("quadrant4Fill"@) == 13097052) by {
        reveal_strlit("quadrant4Fill");
    }
    assert(name_tag("quadrant1TextFill"@) == 17097049) by {
        reveal_strlit("quadrant1TextFill");
    }
    assert(name_tag("quadrant2TextFill"@) == 17097050) by {
        reveal_strlit("quadrant2TextFill");
    }
    assert(name_tag("quadrant3TextFill"@) == 17097051) by {
        reveal_strlit("quadrant3TextFill");
    }
    assert(name_tag("quadrant4TextFill"@) == 17097052) by {
        reveal_strlit("quadrant4TextFill");
    }
    assert(name_tag("quadrantPointFill"@) == 17097080) by {
        reveal_strlit("quadrantPointFill");
    }
    assert(name_tag("quadrantPointTextFill"@) == 21097080) by {
        reveal_strlit("quadrantPointTextFill");
    }
    assert(name_tag("quadrantTitleFill"@) == 17097084) by {
        reveal_strlit("quadrantTitleFill");
    }
    assert(name_tag("quadrantXAxisTextFill"@) == 21097088) by {
        reveal_strlit("quadrantXAxisTextFill");
    }
    assert(name_tag("quadrantYAxisTextFill"@) == 21097089) by {
        reveal_strlit("quadrantYAxisTextFill");
    }
    assert(name_tag("quadrantExternalBorderStrokeFill"@) == 32097069) by {
        reveal_strlit("quadrantExternalBorderStrokeFill");
    }
    assert(name_tag("quadrantInternalBorderStrokeFill"@) == 32097073) by {
        reveal_strlit("quadrantInternalBorderStrokeFill");
    }
}

/// The numbers of the names in the rows of colors.
proof fn lemma_row_tags(i: nat)
    requires
        i <= 8,
    ensures
        name_tag("cScale"@ + decimal(i)) == 7099048 + i,
        name_tag("cScaleLabel"@ + decimal(i)) == 12099098,
        name_tag("pie"@ + decimal(i)) == 4101048 + i,
{
    reveal(name_tag);
    reveal_strlit("cScale");
    reveal_strlit("cScaleLabel");
    reveal_strlit("pie");
    assert(decimal(i) =~= seq![digit(i)]);
    assert(("cScale"@ + decimal(i)).len() == 7);
    assert(("cScaleLabel"@ + decimal(i)).len() == 12);
    assert(("pie"@ + decimal(i)).len() == 4);
    assert(("cScale"@ + decimal(i))[6] == digit(i));
    assert(("pie"@ + decimal(i))[3] == digit(i));
}

/// A variable whose name is not in the rows of colors is left alone when these are put in.
proof fn lemma_rows_leave(
    variables: Map<Seq<char>, Json>,
    theme: MermaidTheme,
    n: nat,
    name: Seq<char>,
)
    requires
        n <= 8,
        !(7099048 <= name_tag(name) <= 7099056),
        name_tag(name) != 12099098,
        !(4101048 <= name_tag(name) <= 4101056),
    ensures
        with_branches(variables, theme, n).contains_key(name) == variables.contains_key(name),
        variables.contains_key(name) ==> with_branches(variables, theme, n)[name]
            == variables[name],
    decreases n,
{
    if n > 0 {
        let i = (n - 1) as nat;
        lemma_rows_leave(variables, theme, i, name);
        lemma_row_tags(i);
        lemma_row_tags(n);
    }
}

/// Part of the theme variables, looked up before the rows of colors are put in.
proof fn lemma_base_variables_1(theme: MermaidTheme)
    ensures
        base_variables(theme).contains_key("primaryColor"@),
        base_variables(theme)["primaryColor"@] == Json::Text(theme.primary_color@),
        base_variables(theme).contains_key("primaryTextColor"@),
        base_variables(theme)["primaryTextColor"@] == Json::Text(theme.primary_text_color@),
        base_variables(theme).contains_key("primaryBorderColor"@),
        base_variables(theme)["primaryBorderColor"@] == Json::Text(theme.primary_border_color@),
        base_variables(theme).contains_key("lineColor"@),
        base_variables(theme)["lineColor"@] == Json::Text(theme.line_color@),
        base_variables(theme).contains_key("secondaryColor"@),
        base_variables(theme)["secondaryColor"@] == Json::Text(theme.secondary_color@),
        base_variables(theme).contains_key("secondaryTextColor"@),
        base_variables(theme)["secondaryTextColor"@] == Json::Text(theme.text_color@),
        base_variables(theme).contains_key("tertiaryColor"@),
        base_variables(theme)["tertiaryColor"@] == Json::Text(theme.tertiary_color@),
        base_variables(theme).contains_key("tertiaryTextColor"@),
        base_variables(theme)["tertiaryTextColor"@] == Json::Text(theme.text_color@),
        base_variables(theme).contains_key("background"@),
        base_variables(theme)["background"@] == Json::Text(theme.background@),
{
    lemma_name_tags();
}

/// Part of the theme variables, looked up before the rows of colors are put in.
proof fn lemma_base_variables_2(theme: MermaidTheme)
    ensures
        base_variables(theme).contains_key("mainBkg"@),
        base_variables(theme)["mainBkg"@] == Json::Text(theme.primary_color@),
        base_variables(theme).contains_key("nodeBorder"@),
        base_variables(theme)["nodeBorder"@] == Json::Text(theme.primary_border_color@),
        base_variables(theme).contains_key("nodeTextColor"@),
        base_variables(theme)["nodeTextColor"@] == Json::Text(theme.primary_text_color@),
        base_variables(theme).contains_key("clusterBkg"@),
        base_variables(theme)["clusterBkg"@] == Json::Text(theme.cluster_background@),
        base_variables(theme).contains_key("clusterBorder"@),
        base_variables(theme)["clusterBorder"@] == Json::Text(theme.cluster_border@),
        base_variables(theme).contains_key("titleColor"@),
        base_variables(theme)["titleColor"@] == Json::Text(theme.text_color@),
        base_variables(theme).contains_key("edgeLabelBackground"@),
        base_variables(theme)["edgeLabelBackground"@] == Json::Text(theme.edge_label_background@),
        base_variables(theme).contains_key("textColor"@),
        base_variables(theme)["textColor"@] == Json::Text(theme.text_color@),
        base_variables(theme).contains_key("fontFamily"@),
        base_variables(theme)["fontFamily"@] == Json::Text(theme.svg_font_family@),
{
    lemma_name_tags();
}

/// Part of the theme variables, looked up before the rows of colors are put in.
proof fn lemma_base_variables_3(theme: MermaidTheme)
    ensures
        base_variables(theme).contains_key("noteBkgColor"@),
        base_variables(theme)["noteBkgColor"@] == Json::Text(theme.note_background@),
        base_variables(theme).contains_key("noteBorderColor"@),
        base_variables(theme)["noteBorderColor"@] == Json::Text(theme.note_border@),
        base_variables(theme).contains_key("noteTextColor"@),
        base_variables(theme)["noteTextColor"@] == Json::Text(theme.text_color@),
        base_variables(theme).contains_key("actorBkg"@),
        base_variables(theme)["actorBkg"@] == Json::Text(theme.actor_background@),
        base_variables(theme).contains_key("actorBorder"@),
        base_variables(theme)["actorBorder"@] == Json::Text(theme.actor_border@),
        base_variables(theme).contains_key("actorTextColor"@),
        base_variables(theme)["actorTextColor"@] == Json::Text(theme.primary_text_color@),
        base_variables(theme).contains_key("labelTextColor"@),
        base_variables(theme)["labelTextColor"@] == Json::Text(theme.text_color@),
        base_variables(theme).contains_key("loopTextColor"@),
        base_variables(theme)["loopTextColor"@] == Json::Text(theme.text_color@),
        base_variables(theme).contains_key("signalColor"@),
        base_variables(theme)["signalColor"@] == Json::Text(theme.text_color@),
{
    lemma_name_tags();
}

/// Part of the theme variables, looked up before the rows of colors are put in.
proof fn lemma_base_variables_4(theme: MermaidTheme)
    ensures
        base_variables(theme).contains_key("signalTextColor"@),
        base_variables(theme)["signalTextColor"@] == Json::Text(theme.text_color@),
        base_variables(theme).contains_key("activationBkgColor"@),
        base_variables(theme)["activationBkgColor"@] == Json::Text(theme.activation_background@),
        base_variables(theme).contains_key("activationBorderColor"@),
        base_variables(theme)["activationBorderColor"@] == Json::Text(theme.activation_border@),
        base_variables(theme).contains_key("classText"@),
        base_variables(theme)["classText"@] == Json::Text(theme.text_color@),
        base_variables(theme).contains_key("labelColor"@),
        base_variables(theme)["labelColor"@] == Json::Text(theme.primary_text_color@),
        base_variables(theme).contains_key("attributeBackgroundColorOdd"@),
        base_variables(theme)["attributeBackgroundColorOdd"@] == Json::Text(theme.er_attr_bg_odd@),
        base_variables(theme).contains_key("attributeBackgroundColorEven"@),
        base_variables(theme)["attributeBackgroundColorEven"@] == Json::Text(theme.er_attr_bg_even@),
        base_variables(theme).contains_key("pieTitleTextColor"@),
        base_variables(theme)["pieTitleTextColor"@] == Json::Text(theme.text_color@),
        base_variables(theme).contains_key("pieSectionTextColor"@),
        base_variables(theme)["pieSectionTextColor"@] == Json::Text(theme.text_color@),
{
    lemma_name_tags();
}

/// Part of the theme variables, looked up before the rows of colors are put in.
proof fn lemma_base_variables_5(theme: MermaidTheme)
    ensures
        base_variables(theme).contains_key("pieLegendTextColor"@),
        base_variables(theme)["pieLegendTextColor"@] == Json::Text(theme.text_color@),
        base_variables(theme).contains_key("pieStrokeColor"@),
        base_variables(theme)["pieStrokeColor"@] == Json::Text(theme.primary_border_color@),
        base_variables(theme).contains_key("pieOuterStrokeColor"@),
        base_variables(theme)["pieOuterStrokeColor"@] == Json::Text(theme.primary_border_color@),
        base_variables(theme).contains_key("quadrant1Fill"@),
        base_variables(theme)["quadrant1Fill"@] == Json::Text(theme.primary_color@),
        base_variables(theme).contains_key("quadrant2Fill"@),
        base_variables(theme)["quadrant2Fill"@] == Json::Text(theme.primary_color@),
        base_variables(theme).contains_key("quadrant3Fill"@),
        base_variables(theme)["quadrant3Fill"@] == Json::Text(theme.primary_color@),
        base_variables(theme).contains_key("quadrant4Fill"@),
        base_variables(theme)["quadrant4Fill"@] == Json::Text(theme.primary_color@),
        base_variables(theme).contains_key("quadrant1TextFill"@),
        base_variables(theme)["quadrant1TextFill"@] == Json::Text(theme.text_color@),
        base_variables(theme).contains_key("quadrant2TextFill"@),
        base_variables(theme)["quadrant2TextFill"@] == Json::Text(theme.text_color@),
{
    lemma_name_tags();
}

/// Part of the theme variables, looked up before the rows of colors are put in.
proof fn lemma_base_variables_6(theme: MermaidTheme)
    ensures
        base_variables(theme).contains_key("quadrant3TextFill"@),
        base_variables(theme)["quadrant3TextFill"@] == Json::Text(theme.text_color@),
        base_variables(theme).contains_key("quadrant4TextFill"@),
        base_variables(theme)["quadrant4TextFill"@] == Json::Text(theme.text_color@),
        base_variables(theme).contains_key("quadrantPointFill"@),
        base_variables(theme)["quadrantPointFill"@] == Json::Text(theme.line_color@),
        base_variables(theme).contains_key("quadrantPointTextFill"@),
        base_variables(theme)["quadrantPointTextFill"@] == Json::Text(theme.text_color@),
        base_variables(theme).contains_key("quadrantTitleFill"@),
        base_variables(theme)["quadrantTitleFill"@] == Json::Text(theme.text_color@),
        base_variables(theme).contains_key("quadrantXAxisTextFill"@),
        base_variables(theme)["quadrantXAxisTextFill"@] == Json::Text(theme.text_color@),
        base_variables(theme).contains_key("quadrantYAxisTextFill"@),
        base_variables(theme)["quadrantYAxisTextFill"@] == Json::Text(theme.text_color@),
        base_variables(theme).contains_key("quadrantExternalBorderStrokeFill"@),
        base_variables(theme)["quadrantExternalBorderStrokeFill"@] == Json::Text(theme.primary_border_color@),
        base_variables(theme).contains_key("quadrantInternalBorderStrokeFill"@),
        base_variables(theme)["quadrantInternalBorderStrokeFill"@] == Json::Text(theme.primary_border_color@),
{
    lemma_name_tags();
}

/// Each theme variable of Mermaid is the color, or the font, of the theme that it stands for,
/// whatever the theme.
pub proof fn law_theme_variables(theme: MermaidTheme)
    ensures
        theme_variables(theme).contains_key("primaryColor"@),
        theme_variables(theme)["primaryColor"@] == Json::Text(theme.primary_color@),
        theme_variables(theme).contains_key("primaryTextColor"@),
        theme_variables(theme)["primaryTextColor"@] == Json::Text(theme.primary_text_color@),
        theme_variables(theme).contains_key("primaryBorderColor"@),
        theme_variables(theme)["primaryBorderColor"@] == Json::Text(theme.primary_border_color@),
        theme_variables(theme).contains_key("lineColor"@),
        theme_variables(theme)["lineColor"@] == Json::Text(theme.line_color@),
        theme_variables(theme).contains_key("secondaryColor"@),
        theme_variables(theme)["secondaryColor"@] == Json::Text(theme.secondary_color@),
        theme_variables(theme).contains_key("secondaryTextColor"@),
        theme_variables(theme)["secondaryTextColor"@] == Json::Text(theme.text_color@),
        theme_variables(theme).contains_key("tertiaryColor"@),
        theme_variables(theme)["tertiaryColor"@] == Json::Text(theme.tertiary_color@),
        theme_variables(theme).contains_key("tertiaryTextColor"@),
        theme_variables(theme)["tertiaryTextColor"@] == Json::Text(theme.text_color@),
        theme_variables(theme).contains_key("background"@),
        theme_variables(theme)["background"@] == Json::Text(theme.background@),
        theme_variables(theme).contains_key("mainBkg"@),
        theme_variables(theme)["mainBkg"@] == Json::Text(theme.primary_color@),
        theme_variables(theme).contains_key("nodeBorder"@),
        theme_variables(theme)["nodeBorder"@] == Json::Text(theme.primary_border_color@),
        theme_variables(theme).contains_key("nodeTextColor"@),
        theme_variables(theme)["nodeTextColor"@] == Json::Text(theme.primary_text_color@),
        theme_variables(theme).contains_key("clusterBkg"@),
        theme_variables(theme)["clusterBkg"@] == Json::Text(theme.cluster_background@),
        theme_variables(theme).contains_key("clusterBorder"@),
        theme_variables(theme)["clusterBorder"@] == Json::Text(theme.cluster_border@),
        theme_variables(theme).contains_key("titleColor"@),
        theme_variables(theme)["titleColor"@] == Json::Text(theme.text_color@),
        theme_variables(theme).contains_key("edgeLabelBackground"@),
        theme_variables(theme)["edgeLabelBackground"@] == Json::Text(theme.edge_label_background@),
        theme_variables(theme).contains_key("textColor"@),
        theme_variables(theme)["textColor"@] == Json::Text(theme.text_color@),
        theme_variables(theme).contains_key("fontFamily"@),
        theme_variables(theme)["fontFamily"@] == Json::Text(theme.svg_font_family@),
        theme_variables(theme).contains_key("noteBkgColor"@),
        theme_variables(theme)["noteBkgColor"@] == Json::Text(theme.note_background@),
        theme_variables(theme).contains_key("noteBorderColor"@),
        theme_variables(theme)["noteBorderColor"@] == Json::Text(theme.note_border@),
        theme_variables(theme).contains_key("noteTextColor"@),
        theme_variables(theme)["noteTextColor"@] == Json::Text(theme.text_color@),
        theme_variables(theme).contains_key("actorBkg"@),
        theme_variables(theme)["actorBkg"@] == Json::Text(theme.actor_background@),
        theme_variables(theme).contains_key("actorBorder"@),
        theme_variables(theme)["actorBorder"@] == Json::Text(theme.actor_border@),
        theme_variables(theme).contains_key("actorTextColor"@),
        theme_variables(theme)["actorTextColor"@] == Json::Text(theme.primary_text_color@),
        theme_variables(theme).contains_key("labelTextColor"@),
        theme_variables(theme)["labelTextColor"@] == Json::Text(theme.text_color@),
        theme_variables(theme).contains_key("loopTextColor"@),
        theme_variables(theme)["loopTextColor"@] == Json::Text(theme.text_color@),
        theme_variables(theme).contains_key("signalColor"@),
        theme_variables(theme)["signalColor"@] == Json::Text(theme.text_color@),
        theme_variables(theme).contains_key("signalTextColor"@),
        theme_variables(theme)["signalTextColor"@] == Json::Text(theme.text_color@),
        theme_variables(theme).contains_key("activationBkgColor"@),
        theme_variables(theme)["activationBkgColor"@] == Json::Text(theme.activation_background@),
        theme_variables(theme).contains_key("activationBorderColor"@),
        theme_variables(theme)["activationBorderColor"@] == Json::Text(theme.activation_border@),
        theme_variables(theme).contains_key("classText"@),
        theme_variables(theme)["classText"@] == Json::Text(theme.text_color@),
        theme_variables(theme).contains_key("labelColor"@),
        theme_variables(theme)["labelColor"@] == Json::Text(theme.primary_text_color@),
        theme_variables(theme).contains_key("attributeBackgroundColorOdd"@),
        theme_variables(theme)["attributeBackgroundColorOdd"@] == Json::Text(theme.er_attr_bg_odd@),
        theme_variables(theme).contains_key("attributeBackgroundColorEven"@),
        theme_variables(theme)["attributeBackgroundColorEven"@] == Json::Text(theme.er_attr_bg_even@),
        theme_variables(theme).contains_key("pieTitleTextColor"@),
        theme_variables(theme)["pieTitleTextColor"@] == Json::Text(theme.text_color@),
        theme_variables(theme).contains_key("pieSectionTextColor"@),
        theme_variables(theme)["pieSectionTextColor"@] == Json::Text(theme.text_color@),
        theme_variables(theme).contains_key("pieLegendTextColor"@),
        theme_variables(theme)["pieLegendTextColor"@] == Json::Text(theme.text_color@),
        theme_variables(theme).contains_key("pieStrokeColor"@),
        theme_variables(theme)["pieStrokeColor"@] == Json::Text(theme.primary_border_color@),
        theme_variables(theme).contains_key("pieOuterStrokeColor"@),
        theme_variables(theme)["pieOuterStrokeColor"@] == Json::Text(theme.primary_border_color@),
        theme_variables(theme).contains_key("quadrant1Fill"@),
        theme_variables(theme)["quadrant1Fill"@] == Json::Text(theme.primary_color@),
        theme_variables(theme).contains_key("quadrant2Fill"@),
        theme_variables(theme)["quadrant2Fill"@] == Json::Text(theme.primary_color@),
        theme_variables(theme).contains_key("quadrant3Fill"@),
        theme_variables(theme)["quadrant3Fill"@] == Json::Text(theme.primary_color@),
        theme_variables(theme).contains_key("quadrant4Fill"@),
        theme_variables(theme)["quadrant4Fill"@] == Json::Text(theme.primary_color@),
        theme_variables(theme).contains_key("quadrant1TextFill"@),
        theme_variables(theme)["quadrant1TextFill"@] == Json::Text(theme.text_color@),
        theme_variables(theme).contains_key("quadrant2TextFill"@),
        theme_variables(theme)["quadrant2TextFill"@] == Json::Text(theme.text_color@),
        theme_variables(theme).contains_key("quadrant3TextFill"@),
        theme_variables(theme)["quadrant3TextFill"@] == Json::Text(theme.text_color@),
        theme_variables(theme).contains_key("quadrant4TextFill"@),
        theme_variables(theme)["quadrant4TextFill"@] == Json::Text(theme.text_color@),
        theme_variables(theme).contains_key("quadrantPointFill"@),
        theme_variables(theme)["quadrantPointFill"@] == Json::Text(theme.line_color@),
        theme_variables(theme).contains_key("quadrantPointTextFill"@),
        theme_variables(theme)["quadrantPointTextFill"@] == Json::Text(theme.text_color@),
        theme_variables(theme).contains_key("quadrantTitleFill"@),
        theme_variables(theme)["quadrantTitleFill"@] == Json::Text(theme.text_color@),
        theme_variables(theme).contains_key("quadrantXAxisTextFill"@),
        theme_variables(theme)["quadrantXAxisTextFill"@] == Json::Text(theme.text_color@),
        theme_variables(theme).contains_key("quadrantYAxisTextFill"@),
        theme_variables(theme)["quadrantYAxisTextFill"@] == Json::Text(theme.text_color@),
        theme_variables(theme).contains_key("quadrantExternalBorderStrokeFill"@),
        theme_variables(theme)["quadrantExternalBorderStrokeFill"@] == Json::Text(theme.primary_border_color@),
        theme_variables(theme).contains_key("quadrantInternalBorderStrokeFill"@),
        theme_variables(theme)["quadrantInternalBorderStrokeFill"@] == Json::Text(theme.primary_border_color@),
{
    lemma_name_tags();
    lemma_base_variables_1(theme);
    lemma_base_variables_2(theme);
    lemma_base_variables_3(theme);
    lemma_base_variables_4(theme);
    lemma_base_variables_5(theme);
    lemma_base_variables_6(theme);
    let base = base_variables(theme);
    lemma_rows_leave(base, theme, 8, "primaryColor"@);
    lemma_rows_leave(base, theme, 8, "primaryTextColor"@);
    lemma_rows_leave(base, theme, 8, "primaryBorderColor"@);
    lemma_rows_leave(base, theme, 8, "lineColor"@);
    lemma_rows_leave(base, theme, 8, "secondaryColor"@);
    lemma_rows_leave(base, theme, 8, "secondaryTextColor"@);
    lemma_rows_leave(base, theme, 8, "tertiaryColor"@);
    lemma_rows_leave(base, theme, 8, "tertiaryTextColor"@);
    lemma_rows_leave(base, theme, 8, "background"@);
    lemma_rows_leave(base, theme, 8, "mainBkg"@);
    lemma_rows_leave(base, theme, 8, "nodeBorder"@);
    lemma_rows_leave(base, theme, 8, "nodeTextColor"@);
    lemma_rows_leave(base, theme, 8, "clusterBkg"@);
    lemma_rows_leave(base, theme, 8, "clusterBorder"@);
    lemma_rows_leave(base, theme, 8, "titleColor"@);
    lemma_rows_leave(base, theme, 8, "edgeLabelBackground"@);
    lemma_rows_leave(base, theme, 8, "textColor"@);
    lemma_rows_leave(base, theme, 8, "fontFamily"@);
    lemma_rows_leave(base, theme, 8, "noteBkgColor"@);
    lemma_rows_leave(base, theme, 8, "noteBorderColor"@);
    lemma_rows_leave(base, theme, 8, "noteTextColor"@);
    lemma_rows_leave(base, theme, 8, "actorBkg"@);
    lemma_rows_leave(base, theme, 8, "actorBorder"@);
    lemma_rows_leave(base, theme, 8, "actorTextColor"@);
    lemma_rows_leave(base, theme, 8, "labelTextColor"@);
    lemma_rows_leave(base, theme, 8, "loopTextColor"@);
    lemma_rows_leave(base, theme, 8, "signalColor"@);
    lemma_rows_leave(base, theme, 8, "signalTextColor"@);
    lemma_rows_leave(base, theme, 8, "activationBkgColor"@);
    lemma_rows_leave(base, theme, 8, "activationBorderColor"@);
    lemma_rows_leave(base, theme, 8, "classText"@);
    lemma_rows_leave(base, theme, 8, "labelColor"@);
    lemma_rows_leave(base, theme, 8, "attributeBackgroundColorOdd"@);
    lemma_rows_leave(base, theme, 8, "attributeBackgroundColorEven"@);
    lemma_rows_leave(base, theme, 8, "pieTitleTextColor"@);
    lemma_rows_leave(base, theme, 8, "pieSectionTextColor"@);
    lemma_rows_leave(base, theme, 8, "pieLegendTextColor"@);
    lemma_rows_leave(base, theme, 8, "pieStrokeColor"@);
    lemma_rows_leave(base, theme, 8, "pieOuterStrokeColor"@);
    lemma_rows_leave(base, theme, 8, "quadrant1Fill"@);
    lemma_rows_leave(base, theme, 8, "quadrant2Fill"@);
    lemma_rows_leave(base, theme, 8, "quadrant3Fill"@);
    lemma_rows_leave(base, theme, 8, "quadrant4Fill"@);
    lemma_rows_leave(base, theme, 8, "quadrant1TextFill"@);
    lemma_rows_leave(base, theme, 8, "quadrant2TextFill"@);
    lemma_rows_leave(base, theme, 8, "quadrant3TextFill"@);
    lemma_rows_leave(base, theme, 8, "quadrant4TextFill"@);
    lemma_rows_leave(base, theme, 8, "quadrantPointFill"@);
    lemma_rows_leave(base, theme, 8, "quadrantPointTextFill"@);
    lemma_rows_leave(base, theme, 8, "quadrantTitleFill"@);
    lemma_rows_leave(base, theme, 8, "quadrantXAxisTextFill"@);
    lemma_rows_leave(base, theme, 8, "quadrantYAxisTextFill"@);
    lemma_rows_leave(base, theme, 8, "quadrantExternalBorderStrokeFill"@);
    lemma_rows_leave(base, theme, 8, "quadrantInternalBorderStrokeFill"@);
}

/// With rows of colors, a variable is one that was there or one of the rows.
proof fn lemma_rows_add(
    variables: Map<Seq<char>, Json>,
    theme: MermaidTheme,
    n: nat,
    name: Seq<char>,
)
    requires
        with_branches(variables, theme, n).contains_key(name),
    ensures
        variables.contains_key(name) || exists|i: nat|
            i < n && (name == "cScale"@ + #[trigger] decimal(i) || name == "cScaleLabel"@ + decimal(
                i,
            ) || name == "pie"@ + decimal(i + 1)),
    decreases n,
{
    if n > 0 {
        let i = (n - 1) as nat;
        if with_branches(variables, theme, i).contains_key(name) {
            lemma_rows_add(variables, theme, i, name);
        } else {
            assert(name == "cScale"@ + decimal(i) || name == "cScaleLabel"@ + decimal(i) || name
                == "pie"@ + decimal(i + 1));
        }
    }
}

/// There are no other theme variables than those.
pub proof fn law_no_other_theme_variables(theme: MermaidTheme, name: Seq<char>)
    requires
        theme_variables(theme).contains_key(name),
    ensures
        name == "primaryColor"@
            || name == "primaryTextColor"@
            || name == "primaryBorderColor"@
            || name == "lineColor"@
            || name == "secondaryColor"@
            || name == "secondaryTextColor"@
            || name == "tertiaryColor"@
            || name == "tertiaryTextColor"@
            || name == "background"@
            || name == "mainBkg"@
            || name == "nodeBorder"@
            || name == "nodeTextColor"@
            || name == "clusterBkg"@
            || name == "clusterBorder"@
            || name == "titleColor"@
            || name == "edgeLabelBackground"@
            || name == "textColor"@
            || name == "fontFamily"@
            || name == "noteBkgColor"@
            || name == "noteBorderColor"@
            || name == "noteTextColor"@
            || name == "actorBkg"@
            || name == "actorBorder"@
            || name == "actorTextColor"@
            || name == "labelTextColor"@
            || name == "loopTextColor"@
            || name == "signalColor"@
            || name == "signalTextColor"@
            || name == "activationBkgColor"@
            || name == "activationBorderColor"@
            || name == "classText"@
            || name == "labelColor"@
            || name == "attributeBackgroundColorOdd"@
            || name == "attributeBackgroundColorEven"@
            || name == "pieTitleTextColor"@
            || name == "pieSectionTextColor"@
            || name == "pieLegendTextColor"@
            || name == "pieStrokeColor"@
            || name == "pieOuterStrokeColor"@
            || name == "quadrant1Fill"@
            || name == "quadrant2Fill"@
            || name == "quadrant3Fill"@
            || name == "quadrant4Fill"@
            || name == "quadrant1TextFill"@
            || name == "quadrant2TextFill"@
            || name == "quadrant3TextFill"@
            || name == "quadrant4TextFill"@
            || name == "quadrantPointFill"@
            || name == "quadrantPointTextFill"@
            || name == "quadrantTitleFill"@
            || name == "quadrantXAxisTextFill"@
            || name == "quadrantYAxisTextFill"@
            || name == "quadrantExternalBorderStrokeFill"@
            || name == "quadrantInternalBorderStrokeFill"@
            || exists|i: nat|
            i < 8 && (name == "cScale"@ + #[trigger] decimal(i) || name == "cScaleLabel"@ + decimal(
                i,
            ) || name == "pie"@ + decimal(i + 1)),
{
    lemma_rows_add(base_variables(theme), theme, 8, name);
}

/// The configuration says which theme variables apply, whether the theme is dark, which font the
/// text has, and how labels are drawn; and nothing else. So themes that differ in being dark, or in
/// their font, have configurations that differ in just that.
pub proof fn law_site_config(theme: MermaidTheme, name: Seq<char>)
    ensures
        site_config(theme).contains_key("theme"@),
        site_config(theme)["theme"@] == Json::Text("base"@),
        site_config(theme).contains_key("darkMode"@),
        site_config(theme)["darkMode"@] == Json::Flag(theme.dark_mode),
        site_config(theme).contains_key("fontFamily"@),
        site_config(theme)["fontFamily"@] == Json::Text(theme.svg_font_family@),
        site_config(theme).contains_key("htmlLabels"@),
        site_config(theme)["htmlLabels"@] == Json::Flag(true),
        site_config(theme).contains_key("themeVariables"@),
        site_config(theme)["themeVariables"@] == Json::Object(theme_variables(theme)),
        site_config(theme).contains_key("flowchart"@),
        site_config(theme)["flowchart"@] matches Json::Object(members) && members.contains_key(
            "htmlLabels"@,
        ) && members["htmlLabels"@] == Json::Flag(true) && members.contains_key("padding"@)
            && members["padding"@] == Json::Number(16) && (members.contains_key(name) ==> name
            == "htmlLabels"@ || name == "padding"@),
        site_config(theme).contains_key(name) ==> name == "theme"@ || name == "darkMode"@ || name
            == "fontFamily"@ || name == "htmlLabels"@ || name == "flowchart"@ || name
            == "themeVariables"@,
{
    reveal_strlit("theme");
    reveal_strlit("darkMode");
    reveal_strlit("fontFamily");
    reveal_strlit("htmlLabels");
    reveal_strlit("flowchart");
    reveal_strlit("themeVariables");
    reveal_strlit("padding");
    assert("theme"@.len() == 5);
    assert("darkMode"@.len() == 8);
    assert("fontFamily"@.len() == 10);
    assert("htmlLabels"@.len() == 10);
    assert("flowchart"@.len() == 9);
    assert("themeVariables"@.len() == 14);
    assert("padding"@.len() == 7);
    assert("fontFamily"@[0] != "htmlLabels"@[0]);
}

/// Adds a member that is text to a JSON object.
fn insert_text(
    object: &mut serde_json::Map<String, serde_json::Value>,
    name: &str,
    text: &String,
)
    ensures
        json_members(*final(object)) == json_members(*old(object)).insert(
            name@,
            Json::Text(text@),
        ),
{
    insert_member(object, name, JsonMember::Text(text.clone()));
}

/// Adds the theme's rows of colors to theme variables.
fn insert_branches(
    variables: &mut serde_json::Map<String, serde_json::Value>,
    theme: &MermaidTheme,
)
    ensures
        json_members(*final(variables)) == with_branches(json_members(*old(variables)), *theme, 8),
{
    let mut i: usize = 0;
    while i < 8
        invariant
            i <= 8,
            json_members(*variables) == with_branches(
                json_members(*old(variables)),
                *theme,
                i as nat,
            ),
        decreases 8 - i,
    {
        let number = to_decimal(i as u64);
        let next_number = to_decimal(i as u64 + 1);
        let color = &theme.git_branch_colors[i];
        let label = &theme.git_branch_label_colors[i];
        insert_text(variables, "cScale".to_owned().concat(number.as_str()).as_str(), color);
        insert_text(variables, "cScaleLabel".to_owned().concat(number.as_str()).as_str(), label);
        insert_text(variables, "pie".to_owned().concat(next_number.as_str()).as_str(), color);
        i += 1;
    }
}

/// The theme variables of Mermaid.
fn variables_for(theme: &MermaidTheme) -> (r: serde_json::Map<String, serde_json::Value>)
    ensures
        json_members(r) == theme_variables(*theme),
{
    let mut variables = empty_object();
    insert_text(&mut variables, "primaryColor", &theme.primary_color);
    insert_text(&mut variables, "primaryTextColor", &theme.primary_text_color);
    insert_text(&mut variables, "primaryBorderColor", &theme.primary_border_color);
    insert_text(&mut variables, "lineColor", &theme.line_color);
    insert_text(&mut variables, "secondaryColor", &theme.secondary_color);
    insert_text(&mut variables, "secondaryTextColor", &theme.text_color);
    insert_text(&mut variables, "tertiaryColor", &theme.tertiary_color);
    insert_text(&mut variables, "tertiaryTextColor", &theme.text_color);
    insert_text(&mut variables, "background", &theme.background);
    insert_text(&mut variables, "mainBkg", &theme.primary_color);
    insert_text(&mut variables, "nodeBorder", &theme.primary_border_color);
    insert_text(&mut variables, "nodeTextColor", &theme.primary_text_color);
    insert_text(&mut variables, "clusterBkg", &theme.cluster_background);
    insert_text(&mut variables, "clusterBorder", &theme.cluster_border);
    insert_text(&mut variables, "titleColor", &theme.text_color);
    insert_text(&mut variables, "edgeLabelBackground", &theme.edge_label_background);
    insert_text(&mut variables, "textColor", &theme.text_color);
    insert_text(&mut variables, "fontFamily", &theme.svg_font_family);
    insert_text(&mut variables, "noteBkgColor", &theme.note_background);
    insert_text(&mut variables, "noteBorderColor", &theme.note_border);
    insert_text(&mut variables, "noteTextColor", &theme.text_color);
    insert_text(&mut variables, "actorBkg", &theme.actor_background);
    insert_text(&mut variables, "actorBorder", &theme.actor_border);
    insert_text(&mut variables, "actorTextColor", &theme.primary_text_color);
    insert_text(&mut variables, "labelTextColor", &theme.text_color);
    insert_text(&mut variables, "loopTextColor", &theme.text_color);
    insert_text(&mut variables, "signalColor", &theme.text_color);
    insert_text(&mut variables, "signalTextColor", &theme.text_color);
    insert_text(&mut variables, "activationBkgColor", &theme.activation_background);
    insert_text(&mut variables, "activationBorderColor", &theme.activation_border);
    insert_text(&mut variables, "classText", &theme.text_color);
    insert_text(&mut variables, "labelColor", &theme.primary_text_color);
    insert_text(&mut variables, "attributeBackgroundColorOdd", &theme.er_attr_bg_odd);
    insert_text(&mut variables, "attributeBackgroundColorEven", &theme.er_attr_bg_even);
    insert_text(&mut variables, "pieTitleTextColor", &theme.text_color);
    insert_text(&mut variables, "pieSectionTextColor", &theme.text_color);
    insert_text(&mut variables, "pieLegendTextColor", &theme.text_color);
    insert_text(&mut variables, "pieStrokeColor", &theme.primary_border_color);
    insert_text(&mut variables, "pieOuterStrokeColor", &theme.primary_border_color);
    insert_text(&mut variables, "quadrant1Fill", &theme.primary_color);
    insert_text(&mut variables, "quadrant2Fill", &theme.primary_color);
    insert_text(&mut variables, "quadrant3Fill", &theme.primary_color);
    insert_text(&mut variables, "quadrant4Fill", &theme.primary_color);
    insert_text(&mut variables, "quadrant1TextFill", &theme.text_color);
    insert_text(&mut variables, "quadrant2TextFill", &theme.text_color);
    insert_text(&mut variables, "quadrant3TextFill", &theme.text_color);
    insert_text(&mut variables, "quadrant4TextFill", &theme.text_color);
    insert_text(&mut variables, "quadrantPointFill", &theme.line_color);
    insert_text(&mut variables, "quadrantPointTextFill", &theme.text_color);
    insert_text(&mut variables, "quadrantTitleFill", &theme.text_color);
    insert_text(&mut variables, "quadrantXAxisTextFill", &theme.text_color);
    insert_text(&mut variables, "quadrantYAxisTextFill", &theme.text_color);
    insert_text(&mut variables, "quadrantExternalBorderStrokeFill", &theme.primary_border_color);
    insert_text(&mut variables, "quadrantInternalBorderStrokeFill", &theme.primary_border_color);
    assert(json_members(variables) == base_variables(*theme));
    insert_branches(&mut variables, theme);
    variables
}

/// `merman`'s configuration for a theme.
pub fn to_merman_config(theme: &MermaidTheme) -> (r: merman::MermaidConfig)
    ensures
        config_members(r) == site_config(*theme),
        config_members(r).contains_key("darkMode"@),
        config_members(r)["darkMode"@] == Json::Flag(theme.dark_mode),
        config_members(r).contains_key("theme"@),
        config_members(r)["theme"@] == Json::Text("base"@),
        config_members(r).contains_key("fontFamily"@),
        config_members(r)["fontFamily"@] == Json::Text(theme.svg_font_family@),
        config_members(r).contains_key("htmlLabels"@),
        config_members(r)["htmlLabels"@] == Json::Flag(true),
        config_members(r).contains_key("themeVariables"@),
        config_members(r)["themeVariables"@] == Json::Object(theme_variables(*theme)),
        config_members(r).contains_key("flowchart"@),
{
    proof {
        law_site_config(*theme, "darkMode"@);
    }
    let variables = variables_for(theme);

    let mut flowchart = empty_object();
    insert_member(&mut flowchart, "htmlLabels", JsonMember::Flag(true));
    insert_member(&mut flowchart, "padding", JsonMember::Number(16));

    let mut config = empty_object();
    insert_member(&mut config, "theme", JsonMember::Text("base".to_owned()));
    insert_member(&mut config, "darkMode", JsonMember::Flag(theme.dark_mode));
    insert_text(&mut config, "fontFamily", &theme.svg_font_family);
    insert_member(&mut config, "htmlLabels", JsonMember::Flag(true));
    insert_member(&mut config, "flowchart", JsonMember::Object(flowchart));
    insert_member(&mut config, "themeVariables", JsonMember::Object(variables));
    config_from_object(config)
}

/// A color of a row of colors, its label and its slice are found under the names for its place.
pub proof fn law_branch_colors_by_place(theme: MermaidTheme, i: nat)
    requires
        i < 8,
    ensures
        theme_variables(theme).contains_key("cScale"@ + decimal(i)),
        theme_variables(theme)["cScale"@ + decimal(i)] == Json::Text(
            theme.git_branch_colors@[i as int]@,
        ),
        theme_variables(theme).contains_key("cScaleLabel"@ + decimal(i)),
        theme_variables(theme)["cScaleLabel"@ + decimal(i)] == Json::Text(
            theme.git_branch_label_colors@[i as int]@,
        ),
        theme_variables(theme).contains_key("pie"@ + decimal(i + 1)),
        theme_variables(theme)["pie"@ + decimal(i + 1)] == Json::Text(
            theme.git_branch_colors@[i as int]@,
        ),
{
    lemma_branch(base_variables(theme), theme, 8, i);
}

/// The names under which colors are found are all different.
proof fn lemma_branch_names(i: nat, j: nat)
    requires
        i <= 8,
        j <= 8,
    ensures
        "cScale"@ + decimal(i) == "cScale"@ + decimal(j) ==> i == j,
        "cScaleLabel"@ + decimal(i) == "cScaleLabel"@ + decimal(j) ==> i == j,
        "pie"@ + decimal(i) == "pie"@ + decimal(j) ==> i == j,
        "cScale"@ + decimal(i) != "cScaleLabel"@ + decimal(j),
        "cScale"@ + decimal(i) != "pie"@ + decimal(j),
        "cScaleLabel"@ + decimal(i) != "pie"@ + decimal(j),
{
    reveal_strlit("cScale");
    reveal_strlit("cScaleLabel");
    reveal_strlit("pie");
    assert(decimal(i) =~= seq![digit(i)]);
    assert(decimal(j) =~= seq![digit(j)]);
    let scale = "cScale"@ + decimal(i);
    let label = "cScaleLabel"@ + decimal(i);
    let slice = "pie"@ + decimal(i);
    assert(scale[6] == digit(i));
    assert(label[11] == digit(i));
    assert(slice[3] == digit(i));
    assert(("cScale"@ + decimal(j))[6] == digit(j));
    assert(("cScaleLabel"@ + decimal(j))[11] == digit(j));
    assert(("pie"@ + decimal(j))[3] == digit(j));
    assert(digit(i) == digit(j) ==> i == j);
    assert(scale.len() == 7);
    assert(("cScaleLabel"@ + decimal(j)).len() == 12);
    assert(("pie"@ + decimal(j)).len() == 4);
    assert(label.len() == 12);
}

/// A color keeps its names while later ones are put in.
proof fn lemma_branch(variables: Map<Seq<char>, Json>, theme: MermaidTheme, n: nat, i: nat)
    requires
        i < n <= 8,
    ensures
        with_branches(variables, theme, n).contains_key("cScale"@ + decimal(i)),
        with_branches(variables, theme, n)["cScale"@ + decimal(i)] == Json::Text(
            theme.git_branch_colors@[i as int]@,
        ),
        with_branches(variables, theme, n).contains_key("cScaleLabel"@ + decimal(i)),
        with_branches(variables, theme, n)["cScaleLabel"@ + decimal(i)] == Json::Text(
            theme.git_branch_label_colors@[i as int]@,
        ),
        with_branches(variables, theme, n).contains_key("pie"@ + decimal(i + 1)),
        with_branches(variables, theme, n)["pie"@ + decimal(i + 1)] == Json::Text(
            theme.git_branch_colors@[i as int]@,
        ),
    decreases n,
{
    let last = (n - 1) as nat;
    lemma_branch_names(i, last);
    lemma_branch_names(last, i);
    lemma_branch_names(i, n);
    lemma_branch_names(i + 1, n);
    lemma_branch_names(last, i + 1);
    lemma_branch_names(last, n);
    if i < last {
        lemma_branch(variables, theme, last, i);
    }
}

/// The place of a diagram among those that a process renders. Only [`DiagramSerials`] hands these
/// out, and rendering takes them away, so that none is used twice.
#[derive(Debug)]
pub struct DiagramSerial {
    number: u64,
}

impl View for DiagramSerial {
    type V = u64;

    closed spec fn view(&self) -> u64 {
        self.number
    }
}

/// Counts the diagrams that a process renders.
#[derive(Debug)]
pub struct DiagramSerials {
    count: u64,
}

impl View for DiagramSerials {
    type V = u64;

    closed spec fn view(&self) -> u64 {
        self.count
    }
}

/// What a count is `n` steps after it was `count`. It begins again at zero behind the greatest
/// number.
pub open spec fn counted(count: u64, n: nat) -> u64 {
    ((count + n) % (u64::MAX + 1)) as u64
}

impl DiagramSerials {
    /// Nothing has been rendered yet.
    pub fn new() -> (r: Self)
        ensures
            r@ == 0,
    {
        DiagramSerials { count: 0 }
    }

    /// The place of the next diagram.
    pub fn next(&mut self) -> (r: DiagramSerial)
        ensures
            r@ == old(self)@,
            final(self)@ == counted(old(self)@, 1),
            old(self)@ < u64::MAX ==> final(self)@ == old(self)@ + 1,
            old(self)@ == u64::MAX ==> final(self)@ == 0,
    {
        let number = self.count;
        self.count = number.wrapping_add(1);
        DiagramSerial { number }
    }
}

/// The identity of the diagram that is rendered as the `serial`th.
pub open spec fn serial_id(serial: u64) -> Seq<char> {
    "merman-"@ + decimal(serial as nat)
}

/// Steps of a count add up.
pub proof fn law_counts_add_up(count: u64, n: nat)
    ensures
        counted(count, 0) == count,
        counted(counted(count, n), 1) == counted(count, n + 1),
{
}

/// An identity is the name of the renderer and the place of the diagram in decimal.
pub proof fn law_serial_id(serial: u64)
    ensures
        serial_id(serial) == "merman-"@ + decimal(serial as nat),
{
}

/// Diagrams at different places have different identities.
pub proof fn law_diagram_ids_are_unique(a: u64, b: u64)
    requires
        serial_id(a) == serial_id(b),
    ensures
        a == b,
{
    let n = "merman-"@.len();
    assert(serial_id(a).skip(n as int) =~= decimal(a as nat));
    assert(serial_id(b).skip(n as int) =~= decimal(b as nat));
    law_decimal_injective(a as nat, b as nat);
}

/// No identity is handed out twice: of any two diagrams, as long as fewer than two to the power of
/// 64 are counted from one to the other, the places differ, and so do the identities.
pub proof fn law_no_id_is_used_twice(count: u64, i: nat, j: nat)
    requires
        i < j,
        j - i <= u64::MAX,
    ensures
        counted(count, i) != counted(count, j),
        serial_id(counted(count, i)) != serial_id(counted(count, j)),
{
    if serial_id(counted(count, i)) == serial_id(counted(count, j)) {
        law_diagram_ids_are_unique(counted(count, i), counted(count, j));
    }
}

/// The identity of the diagram that is rendered as the `serial`th.
pub fn diagram_id(serial: &DiagramSerial) -> (r: String)
    ensures
        r@ == serial_id(serial@),
        r@ == "merman-"@ + decimal(serial@ as nat),
{
    let number = to_decimal(serial.number);
    "merman-".to_owned().concat(number.as_str())
}

/// Why there is no SVG document for a Mermaid diagram.
#[derive(Debug)]
pub enum MermaidError {
    /// `merman` could not render the diagram.
    Render(merman::RenderError),
    /// `merman` came out without a document.
    NoSvg,
}

impl MermaidError {
    /// What went wrong, in words.
    pub fn message(&self) -> (r: String)
        ensures
            r@ == match *self {
                MermaidError::Render(_) => "merman render failed"@,
                MermaidError::NoSvg => "merman returned no SVG for the given input"@,
            },
    {
        match self {
            MermaidError::Render(_) => "merman render failed".to_owned(),
            MermaidError::NoSvg => "merman returned no SVG for the given input".to_owned(),
        }
    }
}

/// What a rendering came out with, over texts.
pub open spec fn outcome_view(outcome: Result<Option<String>, merman::RenderError>) -> Result<
    Option<Seq<char>>,
    merman::RenderError,
> {
    match outcome {
        Ok(Some(svg)) => Ok(Some(svg@)),
        Ok(None) => Ok(None),
        Err(error) => Err(error),
    }
}

/// The document of a diagram, or why there is none, over texts.
pub open spec fn document_view(document: Result<String, MermaidError>) -> Result<
    Seq<char>,
    MermaidError,
> {
    match document {
        Ok(svg) => Ok(svg@),
        Err(error) => Err(error),
    }
}

/// The document that a rendering came out with, or why there is none.
pub open spec fn document_of(outcome: Result<Option<Seq<char>>, merman::RenderError>) -> Result<
    Seq<char>,
    MermaidError,
> {
    match outcome {
        Ok(Some(svg)) => Ok(svg),
        Ok(None) => Err(MermaidError::NoSvg),
        Err(error) => Err(MermaidError::Render(error)),
    }
}

/// A document comes through as it is, and so does an error of `merman`; an outcome without a
/// document is an error of its own.
pub proof fn law_document_comes_through(svg: String, error: merman::RenderError)
    ensures
        outcome_view(Ok(Some(svg))) == Ok::<Option<Seq<char>>, merman::RenderError>(Some(svg@)),
        outcome_view(Ok(None)) == Ok::<Option<Seq<char>>, merman::RenderError>(None),
        outcome_view(Err(error)) == Err::<Option<Seq<char>>, merman::RenderError>(error),
        document_of(Ok(Some(svg@))) == document_view(Ok(svg)),
        document_view(Ok(svg)) == Ok::<Seq<char>, MermaidError>(svg@),
        document_of(Ok(None)) == document_view(Err(MermaidError::NoSvg)),
        document_view(Err(MermaidError::NoSvg)) == Err::<Seq<char>, MermaidError>(
            MermaidError::NoSvg,
        ),
        document_of(Err(error)) == document_view(Err(MermaidError::Render(error))),
        document_view(Err(MermaidError::Render(error))) == Err::<Seq<char>, MermaidError>(
            MermaidError::Render(error),
        ),
{
}

/// The document that a rendering came out with, or why there is none.
pub fn svg_document(outcome: Result<Option<String>, merman::RenderError>) -> (r: Result<
    String,
    MermaidError,
>)
    ensures
        document_view(r) == document_of(outcome_view(outcome)),
        outcome matches Ok(Some(svg)) ==> r == Ok::<String, MermaidError>(svg),
        outcome matches Ok(None) ==> r == Err::<String, MermaidError>(MermaidError::NoSvg),
        outcome matches Err(error) ==> r == Err::<String, MermaidError>(
            MermaidError::Render(error),
        ),
{
    match outcome {
        Ok(Some(svg)) => Ok(svg),
        Ok(None) => Err(MermaidError::NoSvg),
        Err(error) => Err(MermaidError::Render(error)),
    }
}

/// The SVG document of a Mermaid diagram. `serial` tells it apart from the other diagrams of a
/// process.
///
/// Two things are done before the host styles the document. `merman`'s own `!important`
/// declarations are taken out, so that the host's style sheet wins. And `merman` cleans up for
/// rasterizers: text in the place of HTML labels, no unsupported CSS, no invalid attributes.
pub fn render_mermaid_with_text_policy(
    source: &str,
    theme: &MermaidTheme,
    text_measurement_policy: merman::svg::TextMeasurementPolicy,
    serial: DiagramSerial,
) -> (r: Result<String, MermaidError>)
    ensures
        exists|outcome: Result<Option<Seq<char>>, merman::RenderError>|
            #![trigger document_of(outcome)]
            merman_may_render(
                source@,
                serial_id(serial@),
                true,
                seq![SvgPass::StripExistingImportant],
                site_config(*theme),
                text_measurement_policy,
                outcome,
            ) && document_view(r) == document_of(outcome),
{
    let pipeline = strip_existing_important(raster_safe_pipeline());
    assert(added_passes(pipeline) =~= seq![SvgPass::StripExistingImportant]);
    let outcome = render_svg(
        source,
        diagram_id(&serial),
        pipeline,
        to_merman_config(theme),
        text_measurement_policy,
    );
    assert(document_of(outcome_view(outcome)) == document_of(outcome_view(outcome)));
    svg_document(outcome)
}

} // verus!
