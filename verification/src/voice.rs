//! Voice notification planning: which audio lines to synthesize for
//! which events and projects, where they are cached, and what is sent
//! to the speech service. The synthesis itself (HTTP or the system
//! synthesizer) is the application's work; the decisions are made
//! here.

use vstd::prelude::*;

use crate::codec::{json_pretty, json_printable, to_pretty_checked};
use crate::config::{Config, EventEnabled, ProjectConfig};
use crate::digest::{hash_string, sha256_hex};
use crate::json::{field_views, lemma_obj_view, Json, JsonV};
use crate::text::{replace_spec, replace_sub, str_eq, str_views};
use crate::LibError;

verus! {

/// One audio line to synthesize: where it is stored under the voice
/// cache directory, and the text to speak.
#[derive(Debug, Clone)]
pub struct VoiceJob {
    pub relative_path: String,
    pub text: String,
}

/// The (path, text) views of a job list.
pub open spec fn job_views(v: Seq<VoiceJob>) -> Seq<(Seq<char>, Seq<char>)> {
    Seq::new(v.len(), |i: int| (v[i].relative_path@, v[i].text@))
}

/// The file-name keys of the hook events, in order.
pub open spec fn event_keys() -> Seq<Seq<char>> {
    seq!["notification"@, "stop"@, "pre_tool_use"@, "post_tool_use"@, "subagent_stop"@]
}

/// The spoken labels of the hook events, in order.
pub open spec fn event_labels() -> Seq<Seq<char>> {
    seq!["notification"@, "stop"@, "pre tool use"@, "post tool use"@, "subagent stop"@]
}

/// Whether voice is enabled for the `k`-th event.
pub open spec fn event_flag(e: EventEnabled, k: int) -> bool {
    if k == 0 {
        e.notification
    } else if k == 1 {
        e.stop
    } else if k == 2 {
        e.pre_tool_use
    } else if k == 3 {
        e.post_tool_use
    } else {
        e.subagent_stop
    }
}

/// The spoken line for an event: the template with `{event}` and
/// `{project}` substituted.
pub open spec fn render_spec(template: Seq<char>, label: Seq<char>, project: Seq<char>) -> Seq<
    char,
> {
    replace_spec(replace_spec(template, "{event}"@, label), "{project}"@, project)
}

/// The jobs for the events from `k` on, under one cache directory.
pub open spec fn jobs_for(
    e: EventEnabled,
    template: Seq<char>,
    project_label: Seq<char>,
    dir: Seq<char>,
    k: int,
) -> Seq<(Seq<char>, Seq<char>)>
    decreases 5 - k,
{
    if k < 0 || k >= 5 {
        Seq::empty()
    } else {
        (if event_flag(e, k) {
            seq![
                (
                    dir + event_keys()[k] + ".mp3"@,
                    render_spec(template, event_labels()[k], project_label),
                ),
            ]
        } else {
            Seq::empty()
        }) + jobs_for(e, template, project_label, dir, k + 1)
    }
}

/// The label spoken for a project: its display name, or its path.
pub open spec fn label_of(p: ProjectConfig) -> Seq<char> {
    match p.display_name {
        Some(d) => d@,
        None => p.path@,
    }
}

/// The jobs for the projects from `k` on.
pub open spec fn project_jobs(projects: Seq<ProjectConfig>, template: Seq<char>, k: int) -> Seq<
    (Seq<char>, Seq<char>),
>
    decreases projects.len() - k,
{
    if k < 0 || k >= projects.len() {
        Seq::empty()
    } else {
        jobs_for(
            projects[k].voice_enabled,
            template,
            label_of(projects[k]),
            "projects/"@ + sha256_hex(projects[k].path@) + "/"@,
            0,
        ) + project_jobs(projects, template, k + 1)
    }
}

/// Every job a configuration calls for: the global events where global
/// mode is on, then each project's events.
pub open spec fn plan_spec(c: Config) -> Seq<(Seq<char>, Seq<char>)> {
    (if c.global_mode {
        jobs_for(
            c.global_settings.voice_enabled,
            c.global_settings.voice_template@,
            Seq::empty(),
            "global/"@,
            0,
        )
    } else {
        Seq::empty()
    }) + project_jobs(c.projects@, c.global_settings.voice_template@, 0)
}

/// Whether the configuration selects the remote speech service. Any
/// other provider value falls back to the system synthesizer.
pub open spec fn uses_fish(c: Config) -> bool {
    c.global_settings.voice_provider@ == "fish-audio"@
}

fn event_key(k: usize) -> (r: &'static str)
    requires
        k < 5,
    ensures
        r@ == event_keys()[k as int],
{
    if k == 0 {
        "notification"
    } else if k == 1 {
        "stop"
    } else if k == 2 {
        "pre_tool_use"
    } else if k == 3 {
        "post_tool_use"
    } else {
        "subagent_stop"
    }
}

fn event_label(k: usize) -> (r: &'static str)
    requires
        k < 5,
    ensures
        r@ == event_labels()[k as int],
{
    if k == 0 {
        "notification"
    } else if k == 1 {
        "stop"
    } else if k == 2 {
        "pre tool use"
    } else if k == 3 {
        "post tool use"
    } else {
        "subagent stop"
    }
}

fn event_flag_exec(e: &EventEnabled, k: usize) -> (r: bool)
    requires
        k < 5,
    ensures
        r == event_flag(*e, k as int),
{
    if k == 0 {
        e.notification
    } else if k == 1 {
        e.stop
    } else if k == 2 {
        e.pre_tool_use
    } else if k == 3 {
        e.post_tool_use
    } else {
        e.subagent_stop
    }
}

/// Append the jobs of one event group to `out`.
#[verifier::loop_isolation(false)]
fn push_jobs_for(
    out: &mut Vec<VoiceJob>,
    e: &EventEnabled,
    template: &str,
    project_label: &str,
    dir: &str,
)
    ensures
        job_views(final(out)@) == job_views(old(out)@) + jobs_for(
            *e,
            template@,
            project_label@,
            dir@,
            0,
        ),
{
    let ghost base = job_views(out@);
    let mut k: usize = 0;
    proof {
        assert(job_views(out@) + jobs_for(*e, template@, project_label@, dir@, 0) =~= base
            + jobs_for(*e, template@, project_label@, dir@, 0));
    }
    while k < 5
        invariant
            0 <= k <= 5,
            job_views(out@) + jobs_for(*e, template@, project_label@, dir@, k as int) =~= base
                + jobs_for(*e, template@, project_label@, dir@, 0),
        decreases 5 - k,
    {
        if event_flag_exec(e, k) {
            let rel = dir.to_owned().concat(event_key(k)).concat(".mp3");
            let line1 = replace_sub(template, "{event}", event_label(k));
            let line = replace_sub(line1.as_str(), "{project}", project_label);
            let job = VoiceJob { relative_path: rel, text: line };
            out.push(job);
            proof {
                assert(job_views(out@) =~= job_views(out@.drop_last()).push(
                    (out@.last().relative_path@, out@.last().text@),
                ));
            }
        }
        k = k + 1;
        proof {
            assert(job_views(out@) + jobs_for(*e, template@, project_label@, dir@, k as int)
                =~= base + jobs_for(*e, template@, project_label@, dir@, 0));
        }
    }
    proof {
        assert(jobs_for(*e, template@, project_label@, dir@, 5) =~= Seq::<
            (Seq<char>, Seq<char>),
        >::empty());
        assert(job_views(out@) =~= job_views(out@) + jobs_for(
            *e,
            template@,
            project_label@,
            dir@,
            5,
        ));
    }
}

/// The jobs a configuration calls for. Fails with a configuration
/// error where the remote provider is selected, a line is to be
/// synthesized, and no API key was given.
#[verifier::loop_isolation(false)]
pub fn generate_voice_plan(config: &Config, has_api_key: bool) -> (r: Result<
    Vec<VoiceJob>,
    LibError,
>)
    ensures
        r matches Ok(jobs) ==> job_views(jobs@) == plan_spec(*config) && !(uses_fish(*config)
            && !has_api_key && plan_spec(*config).len() > 0),
        r is Err <==> uses_fish(*config) && !has_api_key && plan_spec(*config).len() > 0,
        r is Err ==> r == Err::<Vec<VoiceJob>, LibError>(LibError::ConfigurationError),
{
    let mut jobs: Vec<VoiceJob> = Vec::new();
    if config.global_mode {
        push_jobs_for(
            &mut jobs,
            &config.global_settings.voice_enabled,
            config.global_settings.voice_template.as_str(),
            "",
            "global/",
        );
        proof {
            reveal_strlit("");
            assert(""@ =~= Seq::<char>::empty());
            assert(job_views(jobs@) =~= jobs_for(
                config.global_settings.voice_enabled,
                config.global_settings.voice_template@,
                Seq::empty(),
                "global/"@,
                0,
            ));
        }
    }
    let ghost global_part = job_views(jobs@);
    let mut p: usize = 0;
    proof {
        assert(job_views(jobs@) + project_jobs(
            config.projects@,
            config.global_settings.voice_template@,
            p as int,
        ) =~= global_part + project_jobs(
            config.projects@,
            config.global_settings.voice_template@,
            0,
        ));
    }
    while p < config.projects.len()
        invariant
            0 <= p <= config.projects@.len(),
            job_views(jobs@) + project_jobs(
                config.projects@,
                config.global_settings.voice_template@,
                p as int,
            ) =~= global_part + project_jobs(
                config.projects@,
                config.global_settings.voice_template@,
                0,
            ),
        decreases config.projects@.len() - p,
    {
        let project = &config.projects[p];
        let hash = hash_string(project.path.as_str());
        let dir = "projects/".to_owned().concat(hash.as_str()).concat("/");
        let label: &str = match &project.display_name {
            Some(d) => d.as_str(),
            None => project.path.as_str(),
        };
        proof {
            assert(dir@ =~= "projects/"@ + sha256_hex(config.projects@[p as int].path@) + "/"@);
            assert(label@ == label_of(config.projects@[p as int]));
        }
        push_jobs_for(
            &mut jobs,
            &project.voice_enabled,
            config.global_settings.voice_template.as_str(),
            label,
            dir.as_str(),
        );
        p = p + 1;
        proof {
            assert(job_views(jobs@) + project_jobs(
                config.projects@,
                config.global_settings.voice_template@,
                p as int,
            ) =~= global_part + project_jobs(
                config.projects@,
                config.global_settings.voice_template@,
                0,
            ));
        }
    }
    proof {
        assert(project_jobs(
            config.projects@,
            config.global_settings.voice_template@,
            config.projects@.len() as int,
        ) =~= Seq::<(Seq<char>, Seq<char>)>::empty());
        assert(job_views(jobs@) =~= plan_spec(*config));
    }
    let fish = str_eq(config.global_settings.voice_provider.as_str(), "fish-audio");
    if fish && !has_api_key && jobs.len() > 0 {
        return Err(LibError::ConfigurationError);
    }
    Ok(jobs)
}

/// Where a preview line is played from, in order of preference.
#[derive(Debug, Clone, Copy, PartialEq, Eq, Structural)]
pub enum PreviewSource {
    /// A voice file bundled with the application.
    Bundled,
    /// A voice file installed under the global voice cache.
    InstalledGlobal,
    /// A previously generated preview in the cache.
    Cached,
    /// Synthesize through the remote speech service, then cache.
    GenerateFish,
    /// Synthesize through the system synthesizer, then cache.
    GenerateSystem,
}

/// The bundled file for one of the basic event lines, if any.
pub open spec fn bundled_name_spec(text: Seq<char>) -> Option<Seq<char>> {
    if text == "notification event"@ {
        Some("notification.mp3"@)
    } else if text == "stop event"@ {
        Some("stop.mp3"@)
    } else if text == "pre tool use event"@ {
        Some("pre_tool_use.mp3"@)
    } else if text == "post tool use event"@ {
        Some("post_tool_use.mp3"@)
    } else if text == "subagent stop event"@ {
        Some("subagent_stop.mp3"@)
    } else {
        None
    }
}

/// The bundled voice file a preview text maps to, if any.
pub fn bundled_voice_filename(text: &str) -> (r: Option<String>)
    ensures
        match r {
            Some(name) => bundled_name_spec(text@) == Some(name@),
            None => bundled_name_spec(text@) is None,
        },
{
    if str_eq(text, "notification event") {
        Some("notification.mp3".to_owned())
    } else if str_eq(text, "stop event") {
        Some("stop.mp3".to_owned())
    } else if str_eq(text, "pre tool use event") {
        Some("pre_tool_use.mp3".to_owned())
    } else if str_eq(text, "post tool use event") {
        Some("post_tool_use.mp3".to_owned())
    } else if str_eq(text, "subagent stop event") {
        Some("subagent_stop.mp3".to_owned())
    } else {
        None
    }
}

/// Decide where a voice preview is played from: a bundled file first,
/// then an installed global file, then the preview cache; otherwise
/// the line is synthesized, remotely when an API key is at hand and
/// through the system synthesizer when not.
pub fn preview_voice_plan(
    text: &str,
    bundled_exists: bool,
    global_exists: bool,
    cached_exists: bool,
    has_api_key: bool,
) -> (r: PreviewSource)
    ensures
        r == ({
            if bundled_name_spec(text@) is Some && bundled_exists {
                PreviewSource::Bundled
            } else if bundled_name_spec(text@) is Some && global_exists {
                PreviewSource::InstalledGlobal
            } else if cached_exists {
                PreviewSource::Cached
            } else if has_api_key {
                PreviewSource::GenerateFish
            } else {
                PreviewSource::GenerateSystem
            }
        }),
{
    let bundled = bundled_voice_filename(text);
    match bundled {
        Some(_) => {
            if bundled_exists {
                return PreviewSource::Bundled;
            }
            if global_exists {
                return PreviewSource::InstalledGlobal;
            }
        },
        None => {},
    }
    if cached_exists {
        PreviewSource::Cached
    } else if has_api_key {
        PreviewSource::GenerateFish
    } else {
        PreviewSource::GenerateSystem
    }
}

/// The preview cache file for a text, relative to the voice cache
/// directory: named by the text's digest.
pub fn voice_preview_cache_rel(text: &str) -> (r: String)
    ensures
        r@ == "previews/"@ + sha256_hex(text@) + ".mp3"@,
{
    let h = hash_string(text);
    let r = "previews/".to_owned().concat(h.as_str()).concat(".mp3");
    assert(r@ =~= "previews/"@ + sha256_hex(text@) + ".mp3"@);
    r
}

/// The temporary file the system synthesizer writes to, named by the
/// text's digest.
pub fn system_tts_temp_name(text: &str) -> (r: String)
    ensures
        r@ == "tts_"@ + sha256_hex(text@) + ".aiff"@,
{
    let h = hash_string(text);
    let r = "tts_".to_owned().concat(h.as_str()).concat(".aiff");
    assert(r@ =~= "tts_"@ + sha256_hex(text@) + ".aiff"@);
    r
}

/// The five basic event lines that are pre-generated.
pub fn basic_voice_texts() -> (r: Vec<String>)
    ensures
        str_views(r@) == seq![
            "notification event"@,
            "stop event"@,
            "pre tool use event"@,
            "post tool use event"@,
            "subagent stop event"@,
        ],
{
    let mut out: Vec<String> = Vec::new();
    out.push("notification event".to_owned());
    out.push("stop event".to_owned());
    out.push("pre tool use event".to_owned());
    out.push("post tool use event".to_owned());
    out.push("subagent stop event".to_owned());
    proof {
        assert(str_views(out@) =~= seq![
            "notification event"@,
            "stop event"@,
            "pre tool use event"@,
            "post tool use event"@,
            "subagent stop event"@,
        ]);
    }
    out
}

/// The request document sent to the remote speech service.
pub open spec fn fish_body_spec(text: Seq<char>, voice: Seq<char>) -> JsonV {
    JsonV::Obj(
        seq![
            ("text"@, JsonV::Str(text)),
            ("reference_id"@, JsonV::Str(voice)),
            ("format"@, JsonV::Str("mp3"@)),
            ("latency"@, JsonV::Str("normal"@)),
        ],
    )
}

/// The serialized request body for the remote speech service; a
/// missing voice falls back to the service's default voice. The
/// request holds only strings, so serialization always succeeds.
pub fn fish_tts_request_body(text: &str, voice_id: Option<&str>) -> (r: Option<String>)
    ensures
        r is Some,
        r matches Some(s) ==> s@ == json_pretty(
            fish_body_spec(
                text@,
                match voice_id {
                    Some(v) => v@,
                    None => "af_bella"@,
                },
            ),
        ),
{
    let voice: &str = match voice_id {
        Some(v) => v,
        None => "af_bella",
    };
    let mut fields: Vec<(String, Json)> = Vec::new();
    fields.push(("text".to_owned(), Json::Str(text.to_owned())));
    fields.push(("reference_id".to_owned(), Json::Str(voice.to_owned())));
    fields.push(("format".to_owned(), Json::Str("mp3".to_owned())));
    fields.push(("latency".to_owned(), Json::Str("normal".to_owned())));
    proof {
        lemma_obj_view(fields);
        assert(field_views(fields@) =~= fish_body_spec(
            text@,
            match voice_id {
                Some(v) => v@,
                None => "af_bella"@,
            },
        )->Obj_0);
    }
    let doc = Json::Obj(fields);
    proof {
        let body = fish_body_spec(
            text@,
            match voice_id {
                Some(v) => v@,
                None => "af_bella"@,
            },
        );
        assert(forall|i: int|
            0 <= i < body->Obj_0.len() ==> json_printable((#[trigger] body->Obj_0[i]).1));
    }
    Some(to_pretty_checked(&doc))
}

/// The basic event lines still to generate, given which of the five
/// preview files are already cached, in order.
#[verifier::loop_isolation(false)]
pub fn pregenerate_plan(cached: &Vec<bool>) -> (r: Vec<String>)
    requires
        cached@.len() == 5,
    ensures
        str_views(r@) == pregenerate_plan_spec(cached@),
{
    let texts = basic_voice_texts();
    let mut out: Vec<String> = Vec::new();
    let mut i: usize = 0;
    proof {
        assert(texts@.len() == str_views(texts@).len());
        assert(str_views(out@) + pregenerate_texts(cached@, 0) =~= pregenerate_plan_spec(
            cached@,
        ));
    }
    while i < 5
        invariant
            0 <= i <= 5,
            texts@.len() == 5,
            str_views(texts@) == seq![
                "notification event"@,
                "stop event"@,
                "pre tool use event"@,
                "post tool use event"@,
                "subagent stop event"@,
            ],
            str_views(out@) + pregenerate_texts(cached@, i as int) =~= pregenerate_plan_spec(
                cached@,
            ),
        decreases 5 - i,
    {
        if !cached[i] {
            proof {
                assert(str_views(texts@)[i as int] == texts@[i as int]@);
            }
            out.push(texts[i].clone());
            proof {
                assert(str_views(out@) =~= str_views(out@.drop_last()).push(out@.last()@));
            }
        }
        i = i + 1;
        proof {
            assert(pregenerate_texts(cached@, i - 1) == (if !cached@[i - 1] {
                seq![
                    seq![
                        "notification event"@,
                        "stop event"@,
                        "pre tool use event"@,
                        "post tool use event"@,
                        "subagent stop event"@,
                    ][i - 1],
                ]
            } else {
                Seq::<Seq<char>>::empty()
            }) + pregenerate_texts(cached@, i as int));
            assert(str_views(out@) + pregenerate_texts(cached@, i as int)
                =~= pregenerate_plan_spec(cached@));
        }
    }
    proof {
        assert(pregenerate_texts(cached@, 5) =~= Seq::<Seq<char>>::empty());
        assert(str_views(out@) + pregenerate_texts(cached@, 5) =~= str_views(out@));
    }
    out
}

/// The basic lines whose preview is not cached, from the `k`-th on.
pub open spec fn pregenerate_texts(cached: Seq<bool>, k: int) -> Seq<Seq<char>>
    decreases 5 - k,
{
    if k < 0 || k >= 5 {
        Seq::empty()
    } else {
        (if !cached[k] {
            seq![
                seq![
                    "notification event"@,
                    "stop event"@,
                    "pre tool use event"@,
                    "post tool use event"@,
                    "subagent stop event"@,
                ][k],
            ]
        } else {
            Seq::empty()
        }) + pregenerate_texts(cached, k + 1)
    }
}

/// The basic lines whose preview is not cached.
pub open spec fn pregenerate_plan_spec(cached: Seq<bool>) -> Seq<Seq<char>> {
    pregenerate_texts(cached, 0)
}

} // verus!
