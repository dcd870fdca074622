//! Keeping a usable pipeline through every edit.
//!
//! The generated source is handed over together with a flag that says whether
//! it changed. A new pipeline is asked for only then, or on request; it takes
//! the place of the active one only once it has been built, and a build that
//! fails leaves the active one where it is.

use vstd::prelude::*;
use vstd::string::*;
use crate::layer::SceneError;
use crate::text::{chars_of, push_range};

verus! {

/// What is waiting to be done for the renderer.
#[derive(Clone, Copy, Debug, PartialEq, Eq, Structural)]
pub struct UpdateListener {
    pub queue_buffer: bool,
    pub queue_compile: bool,
}

impl Default for UpdateListener {
    /// Everything is waiting: nothing has been built yet.
    fn default() -> (r: UpdateListener)
        ensures
            r == (UpdateListener { queue_buffer: true, queue_compile: true }),
    {
        UpdateListener { queue_buffer: true, queue_compile: true }
    }
}

/// The source that was generated last.
#[derive(Debug)]
pub struct ShaderCode {
    pub code: String,
}

impl Default for ShaderCode {
    /// No source yet.
    fn default() -> (r: ShaderCode)
        ensures
            r.code@ == Seq::<char>::empty(),
    {
        ShaderCode { code: String::new() }
    }
}

/// What the compiler hands to the renderer: the source and what is waiting.
#[derive(Debug)]
pub struct ShaderGraphData {
    pub update_listener: UpdateListener,
    pub shader_code: ShaderCode,
}

/// What the compiler hands to the renderer, as a value of the logic.
pub struct ShaderGraphView {
    pub update_listener: UpdateListener,
    pub code: Seq<char>,
}

impl View for ShaderGraphData {
    type V = ShaderGraphView;

    open spec fn view(&self) -> ShaderGraphView {
        ShaderGraphView { update_listener: self.update_listener, code: self.shader_code.code@ }
    }
}

impl Default for ShaderGraphData {
    fn default() -> (r: ShaderGraphData)
        ensures
            r@ == (ShaderGraphView {
                update_listener: UpdateListener { queue_buffer: true, queue_compile: true },
                code: Seq::<char>::empty(),
            }),
    {
        ShaderGraphData {
            update_listener: UpdateListener::default(),
            shader_code: ShaderCode::default(),
        }
    }
}

/// The state after new source has been handed over: the source is kept, and a
/// build is waiting if one was waiting before or the source differs from the
/// one kept before.
pub open spec fn submitted(d: ShaderGraphView, code: Seq<char>) -> ShaderGraphView {
    ShaderGraphView {
        update_listener: UpdateListener {
            queue_buffer: d.update_listener.queue_buffer,
            queue_compile: d.update_listener.queue_compile || code != d.code,
        },
        code,
    }
}

/// The state after the renderer has looked for work with the given request:
/// no build is waiting any more.
pub open spec fn polled(d: ShaderGraphView) -> ShaderGraphView {
    ShaderGraphView {
        update_listener: UpdateListener {
            queue_buffer: d.update_listener.queue_buffer,
            queue_compile: false,
        },
        code: d.code,
    }
}

/// Whether the renderer has to build: on request, or where a build is
/// waiting.
pub open spec fn wants_build(d: ShaderGraphView, remake_pipeline: bool) -> bool {
    remake_pipeline || d.update_listener.queue_compile
}

impl ShaderGraphData {
    /// Takes newly generated source and says whether it differs from the
    /// source kept so far.
    pub fn submit(&mut self, code: String) -> (changed: bool)
        ensures
            changed == (code@ != old(self)@.code),
            final(self)@ == submitted(old(self)@, code@),
    {
        let changed = !(code == self.shader_code.code);
        if changed {
            self.update_listener.queue_compile = true;
        }
        self.shader_code.code = code;
        changed
    }
}

/// Whether `marker` stands in `s` at position `i`.
pub open spec fn occurs_at(s: Seq<char>, marker: Seq<char>, i: int) -> bool {
    0 <= i && i + marker.len() <= s.len() && s.subrange(i, i + marker.len()) == marker
}

/// The first position at or after `from` where `marker` stands in `s`.
pub open spec fn first_occurrence(s: Seq<char>, marker: Seq<char>, from: int) -> Option<int>
    decreases s.len() - from,
{
    if from < 0 || from + marker.len() > s.len() {
        None
    } else if occurs_at(s, marker, from) {
        Some(from)
    } else {
        proof {
            if from == s.len() {
                assert(s.subrange(from, from + marker.len()) =~= marker);
            }
        }
        first_occurrence(s, marker, from + 1)
    }
}

/// The template with `replacement` in the place of the first `marker`; none
/// where the template holds no marker.
pub open spec fn substituted(template: Seq<char>, marker: Seq<char>, replacement: Seq<char>) -> Option<
    Seq<char>,
> {
    match first_occurrence(template, marker, 0) {
        Some(i) => Some(
            template.subrange(0, i) + replacement + template.subrange(
                i + marker.len(),
                template.len() as int,
            ),
        ),
        None => None,
    }
}

/// What stands in for the scene while no source has been generated: a ray
/// that hits nothing.
pub open spec fn empty_scene() -> Seq<char> {
    "Hit cast_ray(Ray ray) { return Hit(0.0); }"@
}

/// The shader for the source `code`: the template with the source, or with
/// the stand-in where the source is empty, in the place of the marker.
pub open spec fn shader_text(template: Seq<char>, marker: Seq<char>, code: Seq<char>) -> Option<
    Seq<char>,
> {
    if code.len() == 0 {
        substituted(template, marker, empty_scene())
    } else {
        substituted(template, marker, code)
    }
}

/// What is reported of a template that holds no marker.
pub open spec fn no_marker_text() -> Seq<char> {
    "the shader template holds no marker"@
}

/// Whether `marker` stands in `s` at position `i`.
fn stands_at(s: &Vec<char>, marker: &Vec<char>, i: usize) -> (r: bool)
    requires
        i + marker@.len() <= s@.len(),
    ensures
        r == occurs_at(s@, marker@, i as int),
{
    let mut k: usize = 0;
    let n: usize = s.len();
    while k < marker.len()
        invariant
            k <= marker@.len(),
            n == s@.len(),
            i + marker@.len() <= s@.len(),
            s@.subrange(i as int, i + k) == marker@.subrange(0, k as int),
        decreases marker@.len() - k,
    {
        if s[i + k] != marker[k] {
            assert(s@.subrange(i as int, i + marker@.len())[k as int] != marker@[k as int]);
            return false;
        }
        k = k + 1;
        assert(s@.subrange(i as int, i + k) =~= marker@.subrange(0, k as int));
    }
    assert(marker@.subrange(0, k as int) =~= marker@);
    true
}

/// The first position where `marker` stands in `s`.
fn find_marker(s: &Vec<char>, marker: &Vec<char>) -> (r: Option<usize>)
    ensures
        r is Some == first_occurrence(s@, marker@, 0) is Some,
        r matches Some(i) ==> i == first_occurrence(s@, marker@, 0).unwrap() && i + marker@.len()
            <= s@.len(),
{
    if marker.len() > s.len() {
        return None;
    }
    let last: usize = s.len() - marker.len();
    let n: usize = s.len();
    let mut i: usize = 0;
    while i <= last
        invariant
            last == s@.len() - marker@.len(),
            n == s@.len(),
            last <= n,
            i <= last + 1,
            first_occurrence(s@, marker@, 0) == first_occurrence(s@, marker@, i as int),
        decreases last + 1 - i,
    {
        if stands_at(s, marker, i) {
            return Some(i);
        }
        if i == last {
            return None;
        }
        i = i + 1;
    }
    None
}

/// The template with `replacement` in the place of the first `marker`.
pub fn substitute(template: &str, marker: &str, replacement: &str) -> (r: Option<String>)
    ensures
        r is Some == substituted(template@, marker@, replacement@) is Some,
        r matches Some(text) ==> text@ == substituted(template@, marker@, replacement@).unwrap(),
{
    let chars = chars_of(template);
    let mark = chars_of(marker);
    match find_marker(&chars, &mark) {
        None => None,
        Some(i) => {
            let mut out = String::new();
            let n: usize = chars.len();
            push_range(&mut out, &chars, 0, i);
            out.append(replacement);
            push_range(&mut out, &chars, i + mark.len(), chars.len());
            assert(out@ =~= substituted(template@, marker@, replacement@).unwrap());
            Some(out)
        },
    }
}

/// Where the manager stands.
#[derive(Clone, Copy, Debug, PartialEq, Eq, Structural)]
pub enum ReloadState {
    /// Nothing is being built.
    Idle,
    /// A build was asked for and its outcome is awaited.
    Compiling,
}

/// What the renderer has to do next.
#[derive(Debug)]
pub enum Step {
    /// Nothing: go on with the active pipeline.
    Keep,
    /// Build a pipeline from this shader and report the outcome.
    Build { shader: String },
}

/// The active pipeline, and the template that every shader is made from.
/// `P` is the handle of a pipeline; the manager only keeps it.
pub struct HotReload<P> {
    active: P,
    state: ReloadState,
    template: String,
    marker: String,
}

impl<P> HotReload<P> {
    /// The pipeline that is in use.
    pub closed spec fn active_pipeline(self) -> P {
        self.active
    }

    /// Where the manager stands.
    pub closed spec fn state(self) -> ReloadState {
        self.state
    }

    /// The template of every shader.
    pub closed spec fn template(self) -> Seq<char> {
        self.template@
    }

    /// The marker in whose place the generated source goes.
    pub closed spec fn marker(self) -> Seq<char> {
        self.marker@
    }

    /// A manager that starts with the pipeline `initial` and builds nothing.
    pub fn new(initial: P, template: String, marker: String) -> (r: Self)
        ensures
            r.active_pipeline() == initial,
            r.state() == ReloadState::Idle,
            r.template() == template@,
            r.marker() == marker@,
    {
        HotReload { active: initial, state: ReloadState::Idle, template, marker }
    }

    /// The pipeline to render with. There always is one.
    pub fn active(&self) -> (r: &P)
        ensures
            *r == self.active_pipeline(),
    {
        &self.active
    }

    /// Whether the outcome of a build is awaited.
    pub fn is_compiling(&self) -> (r: bool)
        ensures
            r == (self.state() == ReloadState::Compiling),
    {
        match self.state {
            ReloadState::Compiling => true,
            ReloadState::Idle => false,
        }
    }

    /// Looks for work. While a build is awaited, or where none is waiting and
    /// none is requested, there is nothing to do and nothing changes.
    /// Otherwise the waiting build is taken off `data`, and the shader for the
    /// source in `data` is handed out to be built; a template without marker
    /// gives no shader, which is a failed build.
    pub fn update(&mut self, data: &mut ShaderGraphData, remake_pipeline: bool) -> (r: Result<
        Step,
        SceneError,
    >)
        ensures
            final(self).active_pipeline() == old(self).active_pipeline(),
            final(self).template() == old(self).template(),
            final(self).marker() == old(self).marker(),
            old(self).state() == ReloadState::Compiling || !wants_build(old(data)@, remake_pipeline)
                ==> {
                &&& r matches Ok(Step::Keep)
                &&& final(self).state() == old(self).state()
                &&& final(data)@ == old(data)@
            },
            old(self).state() == ReloadState::Idle && wants_build(old(data)@, remake_pipeline) ==> {
                &&& final(data)@ == polled(old(data)@)
                &&& match shader_text(old(self).template(), old(self).marker(), old(data)@.code) {
                    Some(text) => {
                        &&& r matches Ok(Step::Build { shader })
                        &&& shader@ == text
                        &&& final(self).state() == ReloadState::Compiling
                    },
                    None => {
                        &&& r matches Err(SceneError::ShaderBuildFailure { diagnostic })
                        &&& diagnostic@ == no_marker_text()
                        &&& final(self).state() == ReloadState::Idle
                    },
                }
            },
    {
        if self.is_compiling() || !(remake_pipeline || data.update_listener.queue_compile) {
            return Ok(Step::Keep);
        }
        data.update_listener.queue_compile = false;
        let made = if data.shader_code.code.as_str().unicode_len() == 0 {
            substitute(
                self.template.as_str(),
                self.marker.as_str(),
                "Hit cast_ray(Ray ray) { return Hit(0.0); }",
            )
        } else {
            substitute(
                self.template.as_str(),
                self.marker.as_str(),
                data.shader_code.code.as_str(),
            )
        };
        match made {
            Some(shader) => {
                self.state = ReloadState::Compiling;
                Ok(Step::Build { shader })
            },
            None => Err(
                SceneError::ShaderBuildFailure {
                    diagnostic: String::from_str("the shader template holds no marker"),
                },
            ),
        }
    }

    /// Takes the outcome of a build. A pipeline that was built becomes the
    /// active one; a build that failed leaves the active one where it is and
    /// is reported with its diagnostic. Either way nothing is awaited any
    /// more. An outcome that was not awaited is dropped.
    pub fn complete(&mut self, built: Result<P, String>) -> (r: Result<(), SceneError>)
        ensures
            final(self).state() == ReloadState::Idle,
            final(self).template() == old(self).template(),
            final(self).marker() == old(self).marker(),
            old(self).state() == ReloadState::Idle ==> {
                &&& r is Ok
                &&& final(self).active_pipeline() == old(self).active_pipeline()
            },
            old(self).state() == ReloadState::Compiling ==> match built {
                Ok(pipeline) => r is Ok && final(self).active_pipeline() == pipeline,
                Err(message) => {
                    &&& final(self).active_pipeline() == old(self).active_pipeline()
                    &&& r matches Err(SceneError::ShaderBuildFailure { diagnostic })
                    &&& diagnostic@ == message@
                },
            },
    {
        if !self.is_compiling() {
            return Ok(());
        }
        self.state = ReloadState::Idle;
        match built {
            Ok(pipeline) => {
                self.active = pipeline;
                Ok(())
            },
            Err(message) => Err(SceneError::ShaderBuildFailure { diagnostic: message }),
        }
    }
}

} // verus!
