//! The modeled driver context.
//!
//! The graphics driver is a process-wide mutable state machine that owns
//! every shader and program object. This module models it as an explicit
//! context object passed into every operation: a table of shader objects
//! (stage, source, compile status, diagnostic log) and a table of program
//! objects (link state, attached shaders, diagnostic log, uniform table),
//! together with the driver-level operations the pipeline calls. Handles
//! are positive integers; `0` never names an object. Every operation is
//! total: called on a handle that names no live object it does nothing,
//! as a driver that merely records an error would.
//!
//! The modeled driver's behavior is deterministic: a source compiles
//! exactly when it is non-empty ([`compiles`]); a link succeeds exactly
//! when every attached shader is live and successfully compiled; a failed
//! compile or link stores the driver's configured diagnostic text as the
//! object's log; a successful link builds the uniform table by scanning
//! the attached sources in attach order ([`crate::scan`]).

use vstd::prelude::*;
use vstd::pervasive::VecAdditionalExecFns;

use crate::scan::{scan_source, views_of, MAX_UNIFORMS};

verus! {

/// One unit of GPU program source, compiled independently before linking.
#[derive(Clone, Copy, PartialEq, Eq, Structural, Debug)]
pub enum Stage {
    Vertex,
    Fragment,
    Geometry,
}

/// Compile state of a shader object.
#[derive(Clone, Copy, PartialEq, Eq, Structural, Debug)]
pub enum CompileStatus {
    /// No compile was issued since the source was last set.
    Pending,
    Succeeded,
    Failed,
}

/// Link state of a program object: `Building` until a link is issued,
/// then `Linked` or `Failed`, both terminal until destruction.
#[derive(Clone, Copy, PartialEq, Eq, Structural, Debug)]
pub enum LinkState {
    Building,
    Linked,
    Failed,
}

/// Mathematical model of one live shader object.
pub ghost struct ShaderModel {
    pub stage: Stage,
    pub source: Seq<u8>,
    pub status: CompileStatus,
    pub log: Seq<u8>,
}

/// Mathematical model of one live program object.
pub ghost struct ProgramModel {
    pub state: LinkState,
    pub attached: Seq<u32>,
    pub log: Seq<u8>,
    pub uniforms: Seq<Seq<u8>>,
}

/// In the modeled driver a source compiles exactly when it is non-empty.
pub open spec fn compiles(source: Seq<u8>) -> bool {
    source.len() > 0
}

struct ShaderObject {
    stage: Stage,
    source: Vec<u8>,
    status: CompileStatus,
    log: Vec<u8>,
}

struct ProgramObject {
    state: LinkState,
    attached: Vec<u32>,
    log: Vec<u8>,
    uniforms: Vec<Vec<u8>>,
}

/// The modeled driver context: the owner of every shader and program
/// object, addressed through integer handles.
pub struct DriverContext {
    shaders: Vec<Option<ShaderObject>>,
    programs: Vec<Option<ProgramObject>>,
    link_diag: Vec<u8>,
    compile_diag: Vec<u8>,
}

impl DriverContext {
    /// How many shader handles were ever created (live or not).
    pub closed spec fn shader_count(&self) -> nat {
        self.shaders@.len()
    }

    /// How many program handles were ever created (live or not).
    pub closed spec fn program_count(&self) -> nat {
        self.programs@.len()
    }

    /// The model of the shader object named by `h`, or `None` when `h`
    /// names no live shader.
    pub closed spec fn shader_model(&self, h: u32) -> Option<ShaderModel> {
        if 1 <= h && h <= self.shaders@.len() {
            match self.shaders@[h as int - 1] {
                Some(s) => Some(
                    ShaderModel { stage: s.stage, source: s.source@, status: s.status, log: s.log@ },
                ),
                None => None,
            }
        } else {
            None
        }
    }

    /// The model of the program object named by `h`, or `None` when `h`
    /// names no live program.
    pub closed spec fn program_model(&self, h: u32) -> Option<ProgramModel> {
        if 1 <= h && h <= self.programs@.len() {
            match self.programs@[h as int - 1] {
                Some(p) => Some(
                    ProgramModel {
                        state: p.state,
                        attached: p.attached@,
                        log: p.log@,
                        uniforms: views_of(p.uniforms@),
                    },
                ),
                None => None,
            }
        } else {
            None
        }
    }

    /// `h` names a live shader object.
    pub open spec fn shader_live(&self, h: u32) -> bool {
        self.shader_model(h) is Some
    }

    /// `h` names a live, successfully compiled shader object.
    pub open spec fn shader_ok(&self, h: u32) -> bool {
        match self.shader_model(h) {
            Some(m) => m.status == CompileStatus::Succeeded,
            None => false,
        }
    }

    /// `h` names a live program object.
    pub open spec fn program_live(&self, h: u32) -> bool {
        self.program_model(h) is Some
    }

    /// `h` names a live program whose link succeeded.
    pub open spec fn program_linked(&self, h: u32) -> bool {
        match self.program_model(h) {
            Some(m) => m.state == LinkState::Linked,
            None => false,
        }
    }

    /// The diagnostic text the driver emits on a link failure.
    pub closed spec fn link_diagnostic(&self) -> Seq<u8> {
        self.link_diag@
    }

    /// The diagnostic text the driver emits on a compile failure.
    pub closed spec fn compile_diagnostic(&self) -> Seq<u8> {
        self.compile_diag@
    }

    /// Well-formedness: every stored log leaves room for the trailing
    /// terminator the driver appends when reporting log lengths, and every
    /// uniform table index fits in an `i32` location.
    pub closed spec fn wf(&self) -> bool {
        &&& self.link_diag@.len() < usize::MAX
        &&& self.compile_diag@.len() < usize::MAX
        &&& forall|i: int|
            #![trigger self.shaders@[i]]
            0 <= i < self.shaders@.len() ==> (match self.shaders@[i] {
                Some(s) => s.log@.len() < usize::MAX,
                None => true,
            })
        &&& forall|i: int|
            #![trigger self.programs@[i]]
            0 <= i < self.programs@.len() ==> (match self.programs@[i] {
                Some(p) => p.log@.len() < usize::MAX && views_of(p.uniforms@).len()
                    <= MAX_UNIFORMS,
                None => true,
            })
    }

    /// The stored diagnostic log of the shader named by `h`; empty when
    /// `h` names no live shader.
    pub open spec fn shader_log(&self, h: u32) -> Seq<u8> {
        match self.shader_model(h) {
            Some(m) => m.log,
            None => Seq::empty(),
        }
    }

    /// The stored diagnostic log of the program named by `h`; empty when
    /// `h` names no live program.
    pub open spec fn program_log(&self, h: u32) -> Seq<u8> {
        match self.program_model(h) {
            Some(m) => m.log,
            None => Seq::empty(),
        }
    }

    /// The source of the shader named by `h`; empty when `h` names no
    /// live shader.
    pub open spec fn shader_source_of(&self, h: u32) -> Seq<u8> {
        match self.shader_model(h) {
            Some(m) => m.source,
            None => Seq::empty(),
        }
    }

    /// Every handle in `attached` names a live, successfully compiled
    /// shader.
    pub open spec fn all_attached_ok(&self, attached: Seq<u32>) -> bool {
        forall|i: int| 0 <= i < attached.len() ==> self.shader_ok(#[trigger] attached[i])
    }

    /// The sources of the shaders named by `attached`, in order.
    pub open spec fn source_list(&self, attached: Seq<u32>) -> Seq<Seq<u8>> {
        Seq::new(attached.len(), |i: int| self.shader_source_of(attached[i]))
    }

    /// The uniform table a successful link of `attached` builds: the
    /// attached sources scanned in attach order.
    pub open spec fn linked_uniforms(&self, attached: Seq<u32>) -> Seq<Seq<u8>> {
        uniforms_of_sources(self.source_list(attached), attached.len() as int)
    }

    /// The location the modeled driver reports for `name` in `program`:
    /// the first index of `name` in the program's uniform table when the
    /// program is live and linked, a negative value otherwise.
    pub open spec fn uniform_location(&self, program: u32, name: Seq<u8>) -> int {
        match self.program_model(program) {
            Some(m) => if m.state == LinkState::Linked {
                find_from(m.uniforms, name, 0)
            } else {
                -1
            },
            None => -1,
        }
    }

    /// The two driver contexts hold the same shader objects.
    pub open spec fn same_shaders(&self, other: &DriverContext) -> bool {
        &&& self.shader_count() == other.shader_count()
        &&& forall|h: u32| self.shader_model(h) == other.shader_model(h)
    }

    /// The two driver contexts hold the same program objects.
    pub open spec fn same_programs(&self, other: &DriverContext) -> bool {
        &&& self.program_count() == other.program_count()
        &&& forall|h: u32| self.program_model(h) == other.program_model(h)
    }

    /// The two driver contexts are configured with the same diagnostics.
    pub open spec fn same_diags(&self, other: &DriverContext) -> bool {
        &&& self.link_diagnostic() == other.link_diagnostic()
        &&& self.compile_diagnostic() == other.compile_diagnostic()
    }

    /// A fresh driver context: no objects, empty diagnostic texts.
    pub fn new() -> (d: DriverContext)
        ensures
            d.wf(),
            d.shader_count() == 0,
            d.program_count() == 0,
            d.link_diagnostic() == Seq::<u8>::empty(),
            d.compile_diagnostic() == Seq::<u8>::empty(),
    {
        DriverContext {
            shaders: Vec::new(),
            programs: Vec::new(),
            link_diag: Vec::new(),
            compile_diag: Vec::new(),
        }
    }

    /// Configures the diagnostic text the driver emits on a link failure.
    pub fn set_link_diagnostic(&mut self, diag: Vec<u8>)
        requires
            old(self).wf(),
            diag@.len() < usize::MAX,
        ensures
            final(self).wf(),
            final(self).link_diagnostic() == diag@,
            final(self).compile_diagnostic() == old(self).compile_diagnostic(),
            final(self).same_shaders(old(self)),
            final(self).same_programs(old(self)),
    {
        self.link_diag = diag;
    }

    /// Configures the diagnostic text the driver emits on a compile failure.
    pub fn set_compile_diagnostic(&mut self, diag: Vec<u8>)
        requires
            old(self).wf(),
            diag@.len() < usize::MAX,
        ensures
            final(self).wf(),
            final(self).compile_diagnostic() == diag@,
            final(self).link_diagnostic() == old(self).link_diagnostic(),
            final(self).same_shaders(old(self)),
            final(self).same_programs(old(self)),
    {
        self.compile_diag = diag;
    }

    /// Creates a fresh shader object for `stage`, with empty source and no
    /// compile issued, and returns its handle.
    pub fn create_shader(&mut self, stage: Stage) -> (h: u32)
        requires
            old(self).wf(),
            old(self).shader_count() < u32::MAX,
        ensures
            final(self).wf(),
            h == old(self).shader_count() + 1,
            final(self).shader_count() == old(self).shader_count() + 1,
            final(self).shader_model(h) == Some(
                ShaderModel {
                    stage,
                    source: Seq::<u8>::empty(),
                    status: CompileStatus::Pending,
                    log: Seq::<u8>::empty(),
                },
            ),
            forall|h2: u32| h2 != h ==> final(self).shader_model(h2) == old(self).shader_model(h2),
            final(self).same_programs(old(self)),
            final(self).same_diags(old(self)),
    {
        self.shaders.push(
            Some(
                ShaderObject {
                    stage,
                    source: Vec::new(),
                    status: CompileStatus::Pending,
                    log: Vec::new(),
                },
            ),
        );
        self.shaders.len() as u32
    }

    /// Replaces the source of the shader named by `shader` and resets its
    /// compile status; does nothing when `shader` names no live shader.
    pub fn set_shader_source(&mut self, shader: u32, source: &[u8])
        requires
            old(self).wf(),
        ensures
            final(self).wf(),
            final(self).shader_count() == old(self).shader_count(),
            (match old(self).shader_model(shader) {
                Some(m) => final(self).shader_model(shader) == Some(
                    ShaderModel {
                        stage: m.stage,
                        source: source@,
                        status: CompileStatus::Pending,
                        log: Seq::<u8>::empty(),
                    },
                ),
                None => final(self).shader_model(shader) is None,
            }),
            forall|h2: u32|
                h2 != shader ==> final(self).shader_model(h2) == old(self).shader_model(h2),
            final(self).same_programs(old(self)),
            final(self).same_diags(old(self)),
    {
        if 1 <= shader && shader as usize <= self.shaders.len() {
            let idx = shader as usize - 1;
            let stage_opt: Option<Stage> = match &self.shaders[idx] {
                Some(s) => Some(s.stage),
                None => None,
            };
            match stage_opt {
                Some(stage) => {
                    let obj = ShaderObject {
                        stage,
                        source: vstd::slice::slice_to_vec(source),
                        status: CompileStatus::Pending,
                        log: Vec::new(),
                    };
                    self.shaders.set(idx, Some(obj));
                },
                None => {},
            }
        }
    }

    /// Issues a compile of the shader named by `shader`: in the modeled
    /// driver the compile succeeds exactly when the source is non-empty,
    /// and a failure stores the configured compile diagnostic as the
    /// shader's log. Does nothing when `shader` names no live shader.
    pub fn compile_shader(&mut self, shader: u32)
        requires
            old(self).wf(),
        ensures
            final(self).wf(),
            final(self).shader_count() == old(self).shader_count(),
            (match old(self).shader_model(shader) {
                Some(m) => final(self).shader_model(shader) == Some(
                    ShaderModel {
                        stage: m.stage,
                        source: m.source,
                        status: if compiles(m.source) {
                            CompileStatus::Succeeded
                        } else {
                            CompileStatus::Failed
                        },
                        log: if compiles(m.source) {
                            Seq::<u8>::empty()
                        } else {
                            old(self).compile_diagnostic()
                        },
                    },
                ),
                None => final(self).shader_model(shader) is None,
            }),
            forall|h2: u32|
                h2 != shader ==> final(self).shader_model(h2) == old(self).shader_model(h2),
            final(self).same_programs(old(self)),
            final(self).same_diags(old(self)),
    {
        if 1 <= shader && shader as usize <= self.shaders.len() {
            let idx = shader as usize - 1;
            let parts: Option<(Stage, Vec<u8>)> = match &self.shaders[idx] {
                Some(s) => Some((s.stage, vstd::slice::slice_to_vec(s.source.as_slice()))),
                None => None,
            };
            match parts {
                Some((stage, source)) => {
                    let ok = source.len() > 0;
                    let log: Vec<u8> = if ok {
                        Vec::new()
                    } else {
                        vstd::slice::slice_to_vec(self.compile_diag.as_slice())
                    };
                    let obj = ShaderObject {
                        stage,
                        source,
                        status: if ok {
                            CompileStatus::Succeeded
                        } else {
                            CompileStatus::Failed
                        },
                        log,
                    };
                    self.shaders.set(idx, Some(obj));
                },
                None => {},
            }
        }
    }

    /// Reports whether the last compile of the shader named by `shader`
    /// succeeded; `false` when `shader` names no live shader.
    pub fn get_compile_status(&self, shader: u32) -> (r: bool)
        ensures
            r == self.shader_ok(shader),
    {
        if 1 <= shader && shader as usize <= self.shaders.len() {
            match &self.shaders[shader as usize - 1] {
                Some(s) => matches!(s.status, CompileStatus::Succeeded),
                None => false,
            }
        } else {
            false
        }
    }

    /// How many shader handles were ever created (live or not).
    pub fn shader_handles_created(&self) -> (n: usize)
        ensures
            n == self.shader_count(),
    {
        self.shaders.len()
    }

    /// How many program handles were ever created (live or not).
    pub fn program_handles_created(&self) -> (n: usize)
        ensures
            n == self.program_count(),
    {
        self.programs.len()
    }

    /// Reports whether `shader` names a live shader object.
    pub fn shader_is_live(&self, shader: u32) -> (r: bool)
        ensures
            r == self.shader_live(shader),
    {
        if 1 <= shader && shader as usize <= self.shaders.len() {
            self.shaders[shader as usize - 1].is_some()
        } else {
            false
        }
    }

    /// Destroys the shader object named by `shader`; does nothing when no
    /// live shader has that handle.
    pub fn delete_shader(&mut self, shader: u32)
        requires
            old(self).wf(),
        ensures
            final(self).wf(),
            final(self).shader_count() == old(self).shader_count(),
            final(self).shader_model(shader) is None,
            forall|h2: u32|
                h2 != shader ==> final(self).shader_model(h2) == old(self).shader_model(h2),
            final(self).same_programs(old(self)),
            final(self).same_diags(old(self)),
    {
        if 1 <= shader && shader as usize <= self.shaders.len() {
            self.shaders.set(shader as usize - 1, None);
        }
    }

    /// Creates a fresh program object in the `Building` state and returns
    /// its handle.
    pub fn create_program(&mut self) -> (h: u32)
        requires
            old(self).wf(),
            old(self).program_count() < u32::MAX,
        ensures
            final(self).wf(),
            h == old(self).program_count() + 1,
            final(self).program_count() == old(self).program_count() + 1,
            final(self).program_model(h) == Some(
                ProgramModel {
                    state: LinkState::Building,
                    attached: Seq::<u32>::empty(),
                    log: Seq::<u8>::empty(),
                    uniforms: Seq::<Seq<u8>>::empty(),
                },
            ),
            forall|h2: u32|
                h2 != h ==> final(self).program_model(h2) == old(self).program_model(h2),
            final(self).same_shaders(old(self)),
            final(self).same_diags(old(self)),
    {
        self.programs.push(
            Some(
                ProgramObject {
                    state: LinkState::Building,
                    attached: Vec::new(),
                    log: Vec::new(),
                    uniforms: Vec::new(),
                },
            ),
        );
        proof {
            assert(views_of(Seq::<Vec<u8>>::empty()) =~= Seq::<Seq<u8>>::empty());
        }
        self.programs.len() as u32
    }

    /// Appends `shader` to the attach list of the program named by
    /// `program`; does nothing unless `program` names a live program that
    /// is still `Building`.
    pub fn attach_shader(&mut self, program: u32, shader: u32)
        requires
            old(self).wf(),
        ensures
            final(self).wf(),
            final(self).program_count() == old(self).program_count(),
            (match old(self).program_model(program) {
                Some(m) => final(self).program_model(program) == Some(
                    if m.state == LinkState::Building {
                        ProgramModel {
                            state: m.state,
                            attached: m.attached.push(shader),
                            log: m.log,
                            uniforms: m.uniforms,
                        }
                    } else {
                        m
                    },
                ),
                None => final(self).program_model(program) is None,
            }),
            forall|h2: u32|
                h2 != program ==> final(self).program_model(h2) == old(self).program_model(h2),
            final(self).same_shaders(old(self)),
            final(self).same_diags(old(self)),
    {
        if 1 <= program && program as usize <= self.programs.len() {
            let idx = program as usize - 1;
            let rebuilt: Option<ProgramObject> = match &self.programs[idx] {
                Some(p) => {
                    if matches!(p.state, LinkState::Building) {
                        let mut attached = copy_handles(&p.attached);
                        attached.push(shader);
                        Some(
                            ProgramObject {
                                state: p.state,
                                attached,
                                log: vstd::slice::slice_to_vec(p.log.as_slice()),
                                uniforms: copy_names(&p.uniforms),
                            },
                        )
                    } else {
                        None
                    }
                },
                None => None,
            };
            match rebuilt {
                Some(obj) => {
                    self.programs.set(idx, Some(obj));
                },
                None => {},
            }
        }
    }

    /// Issues a link of the program named by `program`. In the modeled
    /// driver the link succeeds exactly when every attached shader is live
    /// and successfully compiled; then the program is `Linked` and its
    /// uniform table is built by scanning the attached sources in attach
    /// order. On failure the program is `Failed` and its log is the
    /// configured link diagnostic. Does nothing unless `program` names a
    /// live program that is still `Building`.
    pub fn link_program(&mut self, program: u32)
        requires
            old(self).wf(),
        ensures
            final(self).wf(),
            final(self).program_count() == old(self).program_count(),
            final(self).same_shaders(old(self)),
            final(self).same_diags(old(self)),
            forall|h2: u32|
                h2 != program ==> final(self).program_model(h2) == old(self).program_model(h2),
            (match old(self).program_model(program) {
                Some(m) => final(self).program_model(program) == Some(
                    if m.state != LinkState::Building {
                        m
                    } else if old(self).all_attached_ok(m.attached) {
                        ProgramModel {
                            state: LinkState::Linked,
                            attached: m.attached,
                            log: Seq::<u8>::empty(),
                            uniforms: old(self).linked_uniforms(m.attached),
                        }
                    } else {
                        ProgramModel {
                            state: LinkState::Failed,
                            attached: m.attached,
                            log: old(self).link_diagnostic(),
                            uniforms: Seq::<Seq<u8>>::empty(),
                        }
                    },
                ),
                None => final(self).program_model(program) is None,
            }),
    {
        if !(1 <= program && program as usize <= self.programs.len()) {
            return;
        }
        let idx = program as usize - 1;
        let parts: Option<Vec<u32>> = match &self.programs[idx] {
            Some(p) => {
                if matches!(p.state, LinkState::Building) {
                    Some(copy_handles(&p.attached))
                } else {
                    None
                }
            },
            None => None,
        };
        let attached = match parts {
            Some(a) => a,
            None => {
                return;
            },
        };
        let mut ok = true;
        let mut k: usize = 0;
        while k < attached.len()
            invariant
                *self == *old(self),
                old(self).wf(),
                k <= attached@.len(),
                ok ==> forall|j: int| 0 <= j < k ==> self.shader_ok(#[trigger] attached@[j]),
                !ok ==> !self.all_attached_ok(attached@),
            decreases attached@.len() - k,
        {
            if !self.get_compile_status(attached[k]) {
                ok = false;
            }
            k += 1;
        }
        if !ok {
            let log = vstd::slice::slice_to_vec(self.link_diag.as_slice());
            let obj = ProgramObject {
                state: LinkState::Failed,
                attached,
                log,
                uniforms: Vec::new(),
            };
            self.programs.set(idx, Some(obj));
            proof {
                assert(views_of(Seq::<Vec<u8>>::empty()) =~= Seq::<Seq<u8>>::empty());
            }
            return;
        }
        let mut names: Vec<Vec<u8>> = Vec::new();
        let mut k2: usize = 0;
        while k2 < attached.len()
            invariant
                *self == *old(self),
                old(self).wf(),
                k2 <= attached@.len(),
                self.all_attached_ok(attached@),
                views_of(names@) == uniforms_of_sources(self.source_list(attached@), k2 as int),
            decreases attached@.len() - k2,
        {
            let h = attached[k2];
            proof {
                assert(self.shader_ok(h));
            }
            let hidx = h as usize - 1;
            match &self.shaders[hidx] {
                Some(s) => {
                    crate::scan::scan_source_exec(&mut names, s.source.as_slice());
                },
                None => {
                    proof {
                        assert(false);
                    }
                },
            }
            k2 += 1;
        }
        proof {
            lemma_uniforms_of_sources_cap(self.source_list(attached@), attached@.len() as int);
        }
        let obj = ProgramObject {
            state: LinkState::Linked,
            attached,
            log: Vec::new(),
            uniforms: names,
        };
        self.programs.set(idx, Some(obj));
    }

    /// Reports whether the last link of the program named by `program`
    /// succeeded; `false` when `program` names no live program.
    pub fn get_link_status(&self, program: u32) -> (r: bool)
        ensures
            r == self.program_linked(program),
    {
        if 1 <= program && program as usize <= self.programs.len() {
            match &self.programs[program as usize - 1] {
                Some(p) => matches!(p.state, LinkState::Linked),
                None => false,
            }
        } else {
            false
        }
    }

    /// Reports whether `program` names a live program object.
    pub fn program_is_live(&self, program: u32) -> (r: bool)
        ensures
            r == self.program_live(program),
    {
        if 1 <= program && program as usize <= self.programs.len() {
            self.programs[program as usize - 1].is_some()
        } else {
            false
        }
    }

    /// The length the driver reports for the shader's diagnostic log: the
    /// stored text plus one for the trailing terminator, `0` when there is
    /// no log or no live shader.
    pub fn get_shader_info_log_length(&self, shader: u32) -> (n: usize)
        requires
            self.wf(),
        ensures
            n == log_report_length(self.shader_log(shader)),
    {
        if 1 <= shader && shader as usize <= self.shaders.len() {
            match &self.shaders[shader as usize - 1] {
                Some(s) => {
                    if s.log.len() == 0 {
                        0
                    } else {
                        s.log.len() + 1
                    }
                },
                None => 0,
            }
        } else {
            0
        }
    }

    /// The first `count` bytes of the shader's diagnostic log.
    pub fn get_shader_info_log(&self, shader: u32, count: usize) -> (r: Vec<u8>)
        ensures
            r@ == log_prefix(self.shader_log(shader), count as int),
    {
        if 1 <= shader && shader as usize <= self.shaders.len() {
            match &self.shaders[shader as usize - 1] {
                Some(s) => {
                    let m = if count <= s.log.len() {
                        count
                    } else {
                        s.log.len()
                    };
                    let sub = vstd::slice::slice_subrange(s.log.as_slice(), 0, m);
                    vstd::slice::slice_to_vec(sub)
                },
                None => Vec::new(),
            }
        } else {
            Vec::new()
        }
    }

    /// The length the driver reports for the program's diagnostic log: the
    /// stored text plus one for the trailing terminator, `0` when there is
    /// no log or no live program.
    pub fn get_program_info_log_length(&self, program: u32) -> (n: usize)
        requires
            self.wf(),
        ensures
            n == log_report_length(self.program_log(program)),
    {
        if 1 <= program && program as usize <= self.programs.len() {
            match &self.programs[program as usize - 1] {
                Some(p) => {
                    if p.log.len() == 0 {
                        0
                    } else {
                        p.log.len() + 1
                    }
                },
                None => 0,
            }
        } else {
            0
        }
    }

    /// The first `count` bytes of the program's diagnostic log.
    pub fn get_program_info_log(&self, program: u32, count: usize) -> (r: Vec<u8>)
        ensures
            r@ == log_prefix(self.program_log(program), count as int),
    {
        if 1 <= program && program as usize <= self.programs.len() {
            match &self.programs[program as usize - 1] {
                Some(p) => {
                    let m = if count <= p.log.len() {
                        count
                    } else {
                        p.log.len()
                    };
                    let sub = vstd::slice::slice_subrange(p.log.as_slice(), 0, m);
                    vstd::slice::slice_to_vec(sub)
                },
                None => Vec::new(),
            }
        } else {
            Vec::new()
        }
    }

    /// The raw location the driver reports for `name` in `program`: the
    /// first index of `name` in the program's uniform table, or `-1` when
    /// the name is absent or the program is not a linked live program.
    pub fn get_uniform_location_raw(&self, program: u32, name: &[u8]) -> (r: i32)
        requires
            self.wf(),
        ensures
            r as int == self.uniform_location(program, name@),
    {
        if !(1 <= program && program as usize <= self.programs.len()) {
            return -1;
        }
        match &self.programs[program as usize - 1] {
            Some(p) => {
                if !matches!(p.state, LinkState::Linked) {
                    return -1;
                }
                let ghost names = views_of(p.uniforms@);
                let mut k: usize = 0;
                while k < p.uniforms.len()
                    invariant
                        k <= names.len(),
                        names == views_of(p.uniforms@),
                        names.len() <= MAX_UNIFORMS,
                        self.uniform_location(program, name@) == find_from(names, name@, 0),
                        forall|j: int| 0 <= j < k ==> names[j] != name@,
                    decreases names.len() - k,
                {
                    if bytes_eq(p.uniforms[k].as_slice(), name) {
                        proof {
                            assert(names[k as int] == name@);
                            assert(find_from(names, name@, k as int) == k as int);
                            lemma_find_from_skip(names, name@, k as int);
                        }
                        return k as i32;
                    }
                    k += 1;
                }
                proof {
                    lemma_find_from_skip(names, name@, names.len() as int);
                }
                -1
            },
            None => -1,
        }
    }

    /// Destroys the program object named by `program`; does nothing when
    /// no live program has that handle.
    pub fn delete_program(&mut self, program: u32)
        requires
            old(self).wf(),
        ensures
            final(self).wf(),
            final(self).program_count() == old(self).program_count(),
            final(self).program_model(program) is None,
            forall|h2: u32|
                h2 != program ==> final(self).program_model(h2) == old(self).program_model(h2),
            final(self).same_shaders(old(self)),
            final(self).same_diags(old(self)),
    {
        if 1 <= program && program as usize <= self.programs.len() {
            self.programs.set(program as usize - 1, None);
        }
    }
}

/// Byte-for-byte equality of two slices.
pub fn bytes_eq(a: &[u8], b: &[u8]) -> (r: bool)
    ensures
        r == (a@ == b@),
{
    if a.len() != b.len() {
        return false;
    }
    let mut i: usize = 0;
    while i < a.len()
        invariant
            i <= a@.len(),
            a@.len() == b@.len(),
            forall|j: int| 0 <= j < i ==> a@[j] == b@[j],
        decreases a@.len() - i,
    {
        if a[i] != b[i] {
            return false;
        }
        i += 1;
    }
    proof {
        assert(a@ =~= b@);
    }
    true
}

/// A handle outside the range of handles ever created names no shader.
pub proof fn lemma_shader_handle_range(d: &DriverContext, h: u32)
    requires
        h == 0 || h > d.shader_count(),
    ensures
        d.shader_model(h) is None,
{
}

/// The uniform table accumulated by scanning the first `n` of the given
/// sources in order.
pub open spec fn uniforms_of_sources(srcs: Seq<Seq<u8>>, n: int) -> Seq<Seq<u8>>
    decreases n,
{
    if n <= 0 {
        Seq::empty()
    } else {
        scan_source(uniforms_of_sources(srcs, n - 1), srcs[n - 1])
    }
}

/// A uniform table built by scanning never exceeds [`MAX_UNIFORMS`].
pub proof fn lemma_uniforms_of_sources_cap(srcs: Seq<Seq<u8>>, n: int)
    ensures
        uniforms_of_sources(srcs, n).len() <= MAX_UNIFORMS,
    decreases n,
{
    if n > 0 {
        lemma_uniforms_of_sources_cap(srcs, n - 1);
        crate::scan::lemma_scan_source_cap(uniforms_of_sources(srcs, n - 1), srcs[n - 1]);
    }
}

/// The first index at or after `i` where `names` holds `name`, or `-1`.
pub open spec fn find_from(names: Seq<Seq<u8>>, name: Seq<u8>, i: int) -> int
    decreases names.len() - i,
{
    if i < 0 || i >= names.len() {
        -1
    } else if names[i] == name {
        i
    } else {
        find_from(names, name, i + 1)
    }
}

/// `find_from` finds exactly the members: a result that is not `-1` is
/// the first index at or after `i` that holds `name`, and `-1` means no
/// index at or after `i` holds it.
pub proof fn lemma_find_from_spec(names: Seq<Seq<u8>>, name: Seq<u8>, i: int)
    requires
        0 <= i <= names.len(),
    ensures
        ({
            let r = find_from(names, name, i);
            &&& (r == -1 ==> forall|j: int| i <= j < names.len() ==> names[j] != name)
            &&& (r != -1 ==> i <= r < names.len() && names[r] == name && (forall|j: int|
                i <= j < r ==> names[j] != name))
        }),
    decreases names.len() - i,
{
    if i < names.len() && names[i] != name {
        lemma_find_from_spec(names, name, i + 1);
    }
}

/// A uniform name resolves exactly when the program is live, linked, and
/// its uniform table holds the name — and then to the table's first index
/// for it. This is when success is owed to a lookup.
pub proof fn lemma_uniform_location_membership(d: &DriverContext, program: u32, name: Seq<u8>)
    ensures
        ({
            let loc = d.uniform_location(program, name);
            &&& (loc >= 0 <==> (d.program_model(program) matches Some(m) && m.state
                == LinkState::Linked && m.uniforms.contains(name)))
            &&& (loc >= 0 ==> (d.program_model(program) matches Some(m) && loc < m.uniforms.len()
                && m.uniforms[loc] == name && (forall|j: int|
                0 <= j < loc ==> m.uniforms[j] != name)))
        }),
{
    match d.program_model(program) {
        Some(m) => {
            if m.state == LinkState::Linked {
                lemma_find_from_spec(m.uniforms, name, 0);
            }
        },
        None => {},
    }
}

/// Searching from the start and searching past a prefix without a match
/// find the same index.
pub proof fn lemma_find_from_skip(names: Seq<Seq<u8>>, name: Seq<u8>, k: int)
    requires
        0 <= k <= names.len(),
        forall|j: int| 0 <= j < k ==> names[j] != name,
    ensures
        find_from(names, name, 0) == find_from(names, name, k),
    decreases k,
{
    if k > 0 {
        lemma_find_from_skip(names, name, k - 1);
    }
}

/// The reported length of a diagnostic log: the stored text plus one for
/// the trailing terminator, `0` when there is no log at all.
pub open spec fn log_report_length(log: Seq<u8>) -> nat {
    if log.len() == 0 {
        0
    } else {
        (log.len() + 1) as nat
    }
}

/// The first `count` bytes of a stored log, all of it when `count`
/// exceeds its length.
pub open spec fn log_prefix(log: Seq<u8>, count: int) -> Seq<u8> {
    log.take(
        if count <= log.len() {
            count
        } else {
            log.len() as int
        },
    )
}

fn copy_handles(v: &Vec<u32>) -> (r: Vec<u32>)
    ensures
        r@ == v@,
{
    vstd::slice::slice_to_vec(v.as_slice())
}

fn copy_names(v: &Vec<Vec<u8>>) -> (r: Vec<Vec<u8>>)
    ensures
        views_of(r@) == views_of(v@),
        r@.len() == v@.len(),
{
    let mut r: Vec<Vec<u8>> = Vec::new();
    let mut i: usize = 0;
    while i < v.len()
        invariant
            i <= v@.len(),
            r@.len() == i,
            forall|j: int| 0 <= j < i ==> r@[j]@ == v@[j]@,
        decreases v@.len() - i,
    {
        r.push(vstd::slice::slice_to_vec(v[i].as_slice()));
        i += 1;
    }
    proof {
        assert(views_of(r@) =~= views_of(v@));
    }
    r
}

} // verus!
