//! The daemon-level aggregate: one mixer status per attached device, plus
//! process-wide paths and the cached on-disk file inventory.
//!
//! The daemon owns this value and is its only writer; clients see
//! read-only snapshots.  Mixers are keyed by device serial, keys unique,
//! order irrelevant.

use vstd::prelude::*;

use crate::mixer::{
    dec_mixer_status, enc_mixer_status, read_mixer_status, write_mixer_status, MixerStatus,
    MixerStatusV,
};
use crate::mixer::lemma_rt_mixer_status;
use crate::wire;
use crate::wire::Token;

verus! {

/// The five process-wide resource directories.
#[derive(Debug, Clone, PartialEq)]
pub struct Paths {
    pub profile_directory: String,
    pub mic_profile_directory: String,
    pub samples_directory: String,
    pub presets_directory: String,
    pub icons_directory: String,
}

impl Default for Paths {
    fn default() -> (r: Paths)
        ensures
            r.profile_directory@ == Seq::<char>::empty(),
            r.mic_profile_directory@ == Seq::<char>::empty(),
            r.samples_directory@ == Seq::<char>::empty(),
            r.presets_directory@ == Seq::<char>::empty(),
            r.icons_directory@ == Seq::<char>::empty(),
    {
        Paths {
            profile_directory: String::new(),
            mic_profile_directory: String::new(),
            samples_directory: String::new(),
            presets_directory: String::new(),
            icons_directory: String::new(),
        }
    }
}

/// One sample known on disk: its display name and the file that backs it,
/// which may differ.
#[derive(Debug, Clone, PartialEq)]
pub struct SampleFile {
    pub name: String,
    pub file: String,
}

/// The cached inventory of on-disk resource names.  A cache over a
/// collaborator's filesystem scan: staleness is tolerated, and an external
/// rescan refreshes it.
#[derive(Debug, Clone, PartialEq)]
pub struct Files {
    pub profiles: Vec<String>,
    pub mic_profiles: Vec<String>,
    pub presets: Vec<String>,
    pub samples: Vec<SampleFile>,
    pub icons: Vec<String>,
}

/// The mathematical model of a `Files` inventory.
pub struct FilesV {
    pub profiles: Seq<String>,
    pub mic_profiles: Seq<String>,
    pub presets: Seq<String>,
    pub samples: Seq<SampleFile>,
    pub icons: Seq<String>,
}

impl View for Files {
    type V = FilesV;

    open spec fn view(&self) -> FilesV {
        FilesV {
            profiles: self.profiles@,
            mic_profiles: self.mic_profiles@,
            presets: self.presets@,
            samples: self.samples@,
            icons: self.icons@,
        }
    }
}

impl FilesV {
    /// Every inventory list is addressable: its length fits the machine.
    pub open spec fn wf(self) -> bool {
        &&& self.profiles.len() <= usize::MAX
        &&& self.mic_profiles.len() <= usize::MAX
        &&& self.presets.len() <= usize::MAX
        &&& self.samples.len() <= usize::MAX
        &&& self.icons.len() <= usize::MAX
    }
}

impl Default for Files {
    /// An empty — not absent — inventory.
    fn default() -> (r: Files)
        ensures
            r.profiles@.len() == 0,
            r.mic_profiles@.len() == 0,
            r.presets@.len() == 0,
            r.samples@.len() == 0,
            r.icons@.len() == 0,
    {
        Files {
            profiles: Vec::new(),
            mic_profiles: Vec::new(),
            presets: Vec::new(),
            samples: Vec::new(),
            icons: Vec::new(),
        }
    }
}

/// One attached device: its serial (or name) and its status.
#[derive(Debug, Clone, PartialEq)]
pub struct MixerEntry {
    pub serial: String,
    pub status: MixerStatus,
}

/// The mathematical model of a `MixerEntry`.
pub struct MixerEntryV {
    pub serial: String,
    pub status: MixerStatusV,
}

impl View for MixerEntry {
    type V = MixerEntryV;

    open spec fn view(&self) -> MixerEntryV {
        MixerEntryV { serial: self.serial, status: self.status@ }
    }
}

/// The root aggregate the daemon serves to clients.
#[derive(Debug, Clone, PartialEq)]
pub struct DaemonStatus {
    pub daemon_version: String,
    pub mixers: Vec<MixerEntry>,
    pub paths: Paths,
    pub files: Files,
}

/// The mathematical model of a `DaemonStatus`.
pub struct DaemonStatusV {
    pub daemon_version: String,
    pub mixers: Seq<MixerEntryV>,
    pub paths: Paths,
    pub files: FilesV,
}

impl View for DaemonStatus {
    type V = DaemonStatusV;

    open spec fn view(&self) -> DaemonStatusV {
        DaemonStatusV {
            daemon_version: self.daemon_version,
            mixers: Seq::new(self.mixers@.len(), |i: int| self.mixers@[i]@),
            paths: self.paths,
            files: self.files@,
        }
    }
}

impl DaemonStatusV {
    /// Whether some attached device carries this serial.
    pub open spec fn has_serial(self, serial: Seq<char>) -> bool {
        exists|i: int|
            0 <= i < self.mixers.len() && (#[trigger] self.mixers[i]).serial@ == serial
    }

    /// Serials are unique, every attached status is well-formed, and the
    /// collections are addressable.
    pub open spec fn wf(self) -> bool {
        &&& self.mixers.len() <= usize::MAX
        &&& self.files.wf()
        &&& forall|i: int, j: int|
            0 <= i < self.mixers.len() && 0 <= j < self.mixers.len() && i != j ==> (
            #[trigger] self.mixers[i]).serial@ != (#[trigger] self.mixers[j]).serial@
        &&& forall|i: int|
            0 <= i < self.mixers.len() ==> (#[trigger] self.mixers[i]).status.wf()
    }
}

impl Default for DaemonStatus {
    /// A fresh daemon: no attached mixers, empty version, defaulted
    /// paths, empty file inventory.
    fn default() -> (r: DaemonStatus)
        ensures
            r@.wf(),
            r@.mixers.len() == 0,
            r@.daemon_version@ == Seq::<char>::empty(),
            r@.files.profiles.len() == 0,
            r@.files.mic_profiles.len() == 0,
            r@.files.presets.len() == 0,
            r@.files.samples.len() == 0,
            r@.files.icons.len() == 0,
    {
        DaemonStatus {
            daemon_version: String::new(),
            mixers: Vec::new(),
            paths: Paths::default(),
            files: Files::default(),
        }
    }
}

impl DaemonStatus {
    pub open spec fn wf(self) -> bool {
        self@.wf()
    }

    /// Whether a device with this serial is attached.
    pub fn contains_mixer(&self, serial: &String) -> (r: bool)
        ensures
            r == self@.has_serial(serial@),
    {
        let mut i: usize = 0;
        while i < self.mixers.len()
            invariant
                i <= self.mixers@.len(),
                forall|k: int|
                    0 <= k < i ==> (#[trigger] self@.mixers[k]).serial@ != serial@,
            decreases self.mixers@.len() - i,
        {
            if self.mixers[i].serial == *serial {
                proof {
                    assert(self@.mixers[i as int].serial@ == serial@);
                }
                return true;
            }
            i += 1;
        }
        false
    }

    /// The status of the device with this serial, if attached.
    pub fn get_mixer(&self, serial: &String) -> (r: Option<&MixerStatus>)
        ensures
            match r {
                Some(s) => exists|i: int|
                    0 <= i < self@.mixers.len() && (#[trigger] self@.mixers[i]).serial@ == serial@
                        && self@.mixers[i].status == s@,
                None => !self@.has_serial(serial@),
            },
    {
        let mut i: usize = 0;
        while i < self.mixers.len()
            invariant
                i <= self.mixers@.len(),
                forall|k: int|
                    0 <= k < i ==> (#[trigger] self@.mixers[k]).serial@ != serial@,
            decreases self.mixers@.len() - i,
        {
            if self.mixers[i].serial == *serial {
                proof {
                    assert(self@.mixers[i as int].serial@ == serial@);
                }
                return Some(&self.mixers[i].status);
            }
            i += 1;
        }
        None
    }

    /// Attach a device.  The serial must not already be attached; the
    /// entry is appended and every existing entry is untouched.
    pub fn add_mixer(&mut self, serial: String, status: MixerStatus)
        requires
            old(self).wf(),
            old(self)@.mixers.len() < usize::MAX,
            status.wf(),
            !old(self)@.has_serial(serial@),
        ensures
            final(self).wf(),
            final(self)@.mixers.len() == old(self)@.mixers.len() + 1,
            final(self)@.mixers[final(self)@.mixers.len() - 1].serial == serial,
            final(self)@.mixers[final(self)@.mixers.len() - 1].status == status@,
            forall|i: int|
                0 <= i < old(self)@.mixers.len() ==> (#[trigger] final(self)@.mixers[i]) == old(
                    self,
                )@.mixers[i],
            final(self).daemon_version == old(self).daemon_version,
            final(self).paths == old(self).paths,
            final(self).files == old(self).files,
    {
        let ghost oldm = self@.mixers;
        self.mixers.push(MixerEntry { serial, status });
        proof {
            assert(final(self)@.mixers =~= oldm.push(
                MixerEntryV { serial: serial, status: status@ },
            ));
            assert forall|i: int, j: int|
                0 <= i < final(self)@.mixers.len() && 0 <= j < final(self)@.mixers.len() && i
                    != j implies (#[trigger] final(self)@.mixers[i]).serial@ != (
            #[trigger] final(self)@.mixers[j]).serial@ by {
                if i < oldm.len() && j == oldm.len() {
                    assert(!old(self)@.has_serial(serial@));
                    assert(oldm[i].serial@ != serial@);
                }
                if j < oldm.len() && i == oldm.len() {
                    assert(oldm[j].serial@ != serial@);
                }
            }
        }
    }

    /// Detach the device with this serial, if attached; every other
    /// entry survives.
    pub fn remove_mixer(&mut self, serial: &String) -> (r: bool)
        requires
            old(self).wf(),
        ensures
            final(self).wf(),
            r == old(self)@.has_serial(serial@),
            !r ==> *final(self) == *old(self),
            r ==> final(self)@.mixers.len() == old(self)@.mixers.len() - 1,
            !final(self)@.has_serial(serial@),
            final(self).daemon_version == old(self).daemon_version,
            final(self).paths == old(self).paths,
            final(self).files == old(self).files,
    {
        let mut i: usize = 0;
        while i < self.mixers.len()
            invariant
                i <= self.mixers@.len(),
                self.wf(),
                *self == *old(self),
                forall|k: int|
                    0 <= k < i ==> (#[trigger] self@.mixers[k]).serial@ != serial@,
            decreases self.mixers@.len() - i,
        {
            if self.mixers[i].serial == *serial {
                proof {
                    assert(self@.mixers[i as int].serial@ == serial@);
                }
                let ghost oldm = self@.mixers;
                self.mixers.remove(i);
                proof {
                    assert(final(self)@.mixers =~= oldm.remove(i as int));
                    assert forall|k: int|
                        0 <= k < final(self)@.mixers.len() implies (
                    #[trigger] final(self)@.mixers[k]).serial@ != serial@ by {
                        if k < i as int {
                            assert(final(self)@.mixers[k] == oldm[k]);
                        } else {
                            assert(final(self)@.mixers[k] == oldm[k + 1]);
                        }
                    }
                }
                return true;
            }
            i += 1;
        }
        false
    }
}

pub open spec fn enc_paths(v: Paths) -> Seq<Token> {
    wire::enc_text(v.profile_directory) + wire::enc_text(v.mic_profile_directory) + wire::enc_text(v.samples_directory) + wire::enc_text(v.presets_directory) + wire::enc_text(v.icons_directory)
}

pub open spec fn dec_paths(s: Seq<Token>) -> Option<(Paths, Seq<Token>)> {
    match wire::dec_text(s) {
        Some(p0) => 
        match wire::dec_text(p0.1) {
            Some(p1) => 
            match wire::dec_text(p1.1) {
                Some(p2) => 
                match wire::dec_text(p2.1) {
                    Some(p3) => 
                    match wire::dec_text(p3.1) {
                        Some(p4) => 
                        Some((Paths { profile_directory: p0.0, mic_profile_directory: p1.0, samples_directory: p2.0, presets_directory: p3.0, icons_directory: p4.0 }, p4.1)),
                        None => None,
                    },
                    None => None,
                },
                None => None,
            },
            None => None,
        },
        None => None,
    }
}

pub proof fn lemma_rt_paths(v: Paths, rest: Seq<Token>)
    ensures
        dec_paths(enc_paths(v) + rest) == Some((v, rest)),
{
    let e0 = wire::enc_text(v.profile_directory);
    let e1 = wire::enc_text(v.mic_profile_directory);
    let e2 = wire::enc_text(v.samples_directory);
    let e3 = wire::enc_text(v.presets_directory);
    let e4 = wire::enc_text(v.icons_directory);
    let t5 = rest;
    let t4 = e4 + t5;
    let t3 = e3 + t4;
    let t2 = e2 + t3;
    let t1 = e1 + t2;
    let t0 = e0 + t1;
    wire::lemma_assoc(e0 + e1 + e2 + e3, e4, t5);
    wire::lemma_assoc(e0 + e1 + e2, e3, t4);
    wire::lemma_assoc(e0 + e1, e2, t3);
    wire::lemma_assoc(e0, e1, t2);
    assert(enc_paths(v) + rest == t0);
    wire::lemma_rt_text(v.profile_directory, t1);
    wire::lemma_rt_text(v.mic_profile_directory, t2);
    wire::lemma_rt_text(v.samples_directory, t3);
    wire::lemma_rt_text(v.presets_directory, t4);
    wire::lemma_rt_text(v.icons_directory, t5);
}

pub fn write_paths(v: &Paths, out: &mut Vec<Token>)
    ensures
        final(out)@ == old(out)@ + enc_paths(*v),
{
    wire::write_text(&v.profile_directory, out);
    wire::write_text(&v.mic_profile_directory, out);
    wire::write_text(&v.samples_directory, out);
    wire::write_text(&v.presets_directory, out);
    wire::write_text(&v.icons_directory, out);
    assert(out@ =~= old(out)@ + enc_paths(*v));
}

pub fn read_paths(toks: &Vec<Token>, pos: &mut usize) -> (r: Option<Paths>)
    requires
        *old(pos) <= toks@.len(),
    ensures
        match dec_paths(toks@.skip(*old(pos) as int)) {
            Some(p) => {
                &&& r == Some(p.0)
                &&& *old(pos) <= *final(pos) <= toks@.len()
                &&& toks@.skip(*final(pos) as int) == p.1
            },
            None => r is None,
        },
{
    let profile_directory: String = match wire::read_text(toks, pos) {
        Some(x) => x,
        None => {
            return None;
        },
    };
    let mic_profile_directory: String = match wire::read_text(toks, pos) {
        Some(x) => x,
        None => {
            return None;
        },
    };
    let samples_directory: String = match wire::read_text(toks, pos) {
        Some(x) => x,
        None => {
            return None;
        },
    };
    let presets_directory: String = match wire::read_text(toks, pos) {
        Some(x) => x,
        None => {
            return None;
        },
    };
    let icons_directory: String = match wire::read_text(toks, pos) {
        Some(x) => x,
        None => {
            return None;
        },
    };
    Some(Paths { profile_directory, mic_profile_directory, samples_directory, presets_directory, icons_directory })
}

pub open spec fn enc_sample_file(v: SampleFile) -> Seq<Token> {
    wire::enc_text(v.name) + wire::enc_text(v.file)
}

pub open spec fn dec_sample_file(s: Seq<Token>) -> Option<(SampleFile, Seq<Token>)> {
    match wire::dec_text(s) {
        Some(p0) => 
        match wire::dec_text(p0.1) {
            Some(p1) => 
            Some((SampleFile { name: p0.0, file: p1.0 }, p1.1)),
            None => None,
        },
        None => None,
    }
}

pub proof fn lemma_rt_sample_file(v: SampleFile, rest: Seq<Token>)
    ensures
        dec_sample_file(enc_sample_file(v) + rest) == Some((v, rest)),
{
    let e0 = wire::enc_text(v.name);
    let e1 = wire::enc_text(v.file);
    let t2 = rest;
    let t1 = e1 + t2;
    let t0 = e0 + t1;
    wire::lemma_assoc(e0, e1, t2);
    assert(enc_sample_file(v) + rest == t0);
    wire::lemma_rt_text(v.name, t1);
    wire::lemma_rt_text(v.file, t2);
}

pub fn write_sample_file(v: &SampleFile, out: &mut Vec<Token>)
    ensures
        final(out)@ == old(out)@ + enc_sample_file(*v),
{
    wire::write_text(&v.name, out);
    wire::write_text(&v.file, out);
    assert(out@ =~= old(out)@ + enc_sample_file(*v));
}

pub fn read_sample_file(toks: &Vec<Token>, pos: &mut usize) -> (r: Option<SampleFile>)
    requires
        *old(pos) <= toks@.len(),
    ensures
        match dec_sample_file(toks@.skip(*old(pos) as int)) {
            Some(p) => {
                &&& r == Some(p.0)
                &&& *old(pos) <= *final(pos) <= toks@.len()
                &&& toks@.skip(*final(pos) as int) == p.1
            },
            None => r is None,
        },
{
    let name: String = match wire::read_text(toks, pos) {
        Some(x) => x,
        None => {
            return None;
        },
    };
    let file: String = match wire::read_text(toks, pos) {
        Some(x) => x,
        None => {
            return None;
        },
    };
    Some(SampleFile { name, file })
}

pub open spec fn enc_sample_files(s: Seq<SampleFile>) -> Seq<Token>
    decreases s.len(),
{
    if s.len() == 0 {
        Seq::empty()
    } else {
        enc_sample_file(s[0]) + enc_sample_files(s.skip(1))
    }
}

pub open spec fn dec_sample_files(s: Seq<Token>, n: int) -> Option<(Seq<SampleFile>, Seq<Token>)>
    decreases n,
{
    if n <= 0 {
        Some((Seq::empty(), s))
    } else {
        match dec_sample_file(s) {
            Some(p) => match dec_sample_files(p.1, n - 1) {
                Some(q) => Some((seq![p.0] + q.0, q.1)),
                None => None,
            },
            None => None,
        }
    }
}

pub proof fn lemma_rt_sample_files(s: Seq<SampleFile>, rest: Seq<Token>)
    ensures
        dec_sample_files(enc_sample_files(s) + rest, s.len() as int) == Some((s, rest)),
    decreases s.len(),
{
    if s.len() == 0 {
        assert(enc_sample_files(s) + rest =~= rest);
    } else {
        let tail = s.skip(1);
        assert(enc_sample_files(s) + rest =~= enc_sample_file(s[0]) + (enc_sample_files(tail) + rest));
        lemma_rt_sample_file(s[0], enc_sample_files(tail) + rest);
        lemma_rt_sample_files(tail, rest);
        assert(seq![s[0]] + tail =~= s);
    }
}

pub fn write_sample_files(v: &Vec<SampleFile>, out: &mut Vec<Token>)
    ensures
        final(out)@ == old(out)@ + enc_sample_files(v@),
{
    let ghost base = out@;
    let ghost m = v@;
    let mut k: usize = 0;
    proof {
        assert(m.skip(0) =~= m);
    }
    while k < v.len()
        invariant
            k <= v@.len(),
            m == v@,
            m.len() == v@.len(),
            out@ + enc_sample_files(m.skip(k as int)) == base + enc_sample_files(m),
        decreases v@.len() - k,
    {
        let ghost out0 = out@;
        write_sample_file(&v[k], out);
        proof {
            assert(m.skip(k as int).skip(1) =~= m.skip(k as int + 1));
            assert(m.skip(k as int)[0] == m[k as int]);
            assert(out0 + enc_sample_file(m[k as int]) + enc_sample_files(m.skip(k as int + 1)) =~= out0 + (enc_sample_file(m[k as int]) + enc_sample_files(m.skip(k as int + 1))));
        }
        k += 1;
    }
    proof {
        assert(enc_sample_files(m.skip(v@.len() as int)) =~= Seq::empty());
        assert(out@ + Seq::<Token>::empty() =~= out@);
    }
}

#[verifier::loop_isolation(false)]
pub fn read_sample_files(toks: &Vec<Token>, pos: &mut usize, n: usize) -> (r: Option<Vec<SampleFile>>)
    requires
        *old(pos) <= toks@.len(),
    ensures
        match dec_sample_files(toks@.skip(*old(pos) as int), n as int) {
            Some(p) => {
                &&& r matches Some(v) && v@ == p.0
                &&& p.0.len() == n
                &&& *old(pos) <= *final(pos) <= toks@.len()
                &&& toks@.skip(*final(pos) as int) == p.1
            },
            None => r is None,
        },
{
    let ghost p0 = *pos as int;
    let mut acc: Vec<SampleFile> = Vec::new();
    let mut k: usize = 0;
    while k < n
        invariant
            k <= n,
            p0 <= *pos as int,
            *pos <= toks@.len(),
            acc@.len() == k,
            dec_sample_files(toks@.skip(p0), n as int) == (match dec_sample_files(
                toks@.skip(*pos as int),
                n as int - k as int,
            ) {
                Some(q) => Some::<(Seq<SampleFile>, Seq<Token>)>((acc@ + q.0, q.1)),
                None => None::<(Seq<SampleFile>, Seq<Token>)>,
            }),
        decreases n - k,
    {
        let ghost before = toks@.skip(*pos as int);
        match read_sample_file(toks, pos) {
            Some(x) => {
                proof {
                    if dec_sample_files(before, n as int - k as int) matches Some(q) {
                        let qq = dec_sample_files(toks@.skip(*pos as int), n as int - k as int - 1);
                        assert(acc@ + (seq![x] + qq->Some_0.0) =~= acc@.push(x) + qq->Some_0.0);
                    }
                    assert(acc@.push(x) =~= acc@.push(x));
                }
                acc.push(x);
                k += 1;
            },
            None => {
                return None;
            },
        }
    }
    proof {
        assert(dec_sample_files(toks@.skip(*pos as int), 0) == Some::<(Seq<SampleFile>, Seq<Token>)>((
            Seq::empty(),
            toks@.skip(*pos as int),
        )));
        assert(acc@ + Seq::<SampleFile>::empty() =~= acc@);
    }
    Some(acc)
}

pub open spec fn enc_files(m: FilesV) -> Seq<Token> {
    wire::enc_text_list(m.profiles) + wire::enc_text_list(m.mic_profiles) + wire::enc_text_list(
        m.presets,
    ) + (wire::enc_u64(m.samples.len() as u64) + enc_sample_files(m.samples)) + wire::enc_text_list(
        m.icons,
    )
}

pub open spec fn dec_files(s: Seq<Token>) -> Option<(FilesV, Seq<Token>)> {
    match wire::dec_text_list(s) {
        Some(p0) => match wire::dec_text_list(p0.1) {
            Some(p1) => match wire::dec_text_list(p1.1) {
                Some(p2) => match wire::dec_u64(p2.1) {
                    Some(p3) => if p3.0 <= usize::MAX as u64 {
                        match dec_sample_files(p3.1, p3.0 as int) {
                            Some(p4) => match wire::dec_text_list(p4.1) {
                                Some(p5) => Some((
                                    FilesV {
                                        profiles: p0.0,
                                        mic_profiles: p1.0,
                                        presets: p2.0,
                                        samples: p4.0,
                                        icons: p5.0,
                                    },
                                    p5.1,
                                )),
                                None => None,
                            },
                            None => None,
                        }
                    } else {
                        None
                    },
                    None => None,
                },
                None => None,
            },
            None => None,
        },
        None => None,
    }
}

pub proof fn lemma_rt_files(m: FilesV, rest: Seq<Token>)
    requires
        m.wf(),
    ensures
        dec_files(enc_files(m) + rest) == Some((m, rest)),
{
    let e0 = wire::enc_text_list(m.profiles);
    let e1 = wire::enc_text_list(m.mic_profiles);
    let e2 = wire::enc_text_list(m.presets);
    let e3 = wire::enc_u64(m.samples.len() as u64) + enc_sample_files(m.samples);
    let e4 = wire::enc_text_list(m.icons);
    let t5 = rest;
    let t4 = e4 + t5;
    let t3 = e3 + t4;
    let t2 = e2 + t3;
    let t1 = e1 + t2;
    let t0 = e0 + t1;
    wire::lemma_assoc(e0 + e1 + e2 + e3, e4, t5);
    wire::lemma_assoc(e0 + e1 + e2, e3, t4);
    wire::lemma_assoc(e0 + e1, e2, t3);
    wire::lemma_assoc(e0, e1, t2);
    assert(enc_files(m) + rest == t0);
    wire::lemma_rt_text_list(m.profiles, t1);
    wire::lemma_rt_text_list(m.mic_profiles, t2);
    wire::lemma_rt_text_list(m.presets, t3);
    wire::lemma_assoc(wire::enc_u64(m.samples.len() as u64), enc_sample_files(m.samples), t4);
    wire::lemma_rt_u64(m.samples.len() as u64, enc_sample_files(m.samples) + t4);
    lemma_rt_sample_files(m.samples, t4);
    wire::lemma_rt_text_list(m.icons, t5);
}

pub fn write_files(v: &Files, out: &mut Vec<Token>)
    ensures
        final(out)@ == old(out)@ + enc_files(v@),
{
    wire::write_text_list(&v.profiles, out);
    wire::write_text_list(&v.mic_profiles, out);
    wire::write_text_list(&v.presets, out);
    wire::write_u64(v.samples.len() as u64, out);
    write_sample_files(&v.samples, out);
    wire::write_text_list(&v.icons, out);
    assert(out@ =~= old(out)@ + enc_files(v@));
}

pub fn read_files(toks: &Vec<Token>, pos: &mut usize) -> (r: Option<Files>)
    requires
        *old(pos) <= toks@.len(),
    ensures
        match dec_files(toks@.skip(*old(pos) as int)) {
            Some(p) => {
                &&& r matches Some(v) && v@ == p.0
                &&& *old(pos) <= *final(pos) <= toks@.len()
                &&& toks@.skip(*final(pos) as int) == p.1
            },
            None => r is None,
        },
{
    let profiles = match wire::read_text_list(toks, pos) {
        Some(x) => x,
        None => {
            return None;
        },
    };
    let mic_profiles = match wire::read_text_list(toks, pos) {
        Some(x) => x,
        None => {
            return None;
        },
    };
    let presets = match wire::read_text_list(toks, pos) {
        Some(x) => x,
        None => {
            return None;
        },
    };
    let n = match wire::read_u64(toks, pos) {
        Some(x) => x,
        None => {
            return None;
        },
    };
    if n > usize::MAX as u64 {
        return None;
    }
    let samples = match read_sample_files(toks, pos, n as usize) {
        Some(x) => x,
        None => {
            return None;
        },
    };
    let icons = match wire::read_text_list(toks, pos) {
        Some(x) => x,
        None => {
            return None;
        },
    };
    Some(Files { profiles, mic_profiles, presets, samples, icons })
}


pub open spec fn enc_mixer_entry(m: MixerEntryV) -> Seq<Token> {
    wire::enc_text(m.serial) + enc_mixer_status(m.status)
}

pub open spec fn dec_mixer_entry(s: Seq<Token>) -> Option<(MixerEntryV, Seq<Token>)> {
    match wire::dec_text(s) {
        Some(p0) => match dec_mixer_status(p0.1) {
            Some(p1) => Some((MixerEntryV { serial: p0.0, status: p1.0 }, p1.1)),
            None => None,
        },
        None => None,
    }
}

pub proof fn lemma_rt_mixer_entry(m: MixerEntryV, rest: Seq<Token>)
    requires
        m.status.wf(),
    ensures
        dec_mixer_entry(enc_mixer_entry(m) + rest) == Some((m, rest)),
{
    let t1 = enc_mixer_status(m.status) + rest;
    wire::lemma_assoc(wire::enc_text(m.serial), enc_mixer_status(m.status), rest);
    wire::lemma_rt_text(m.serial, t1);
    lemma_rt_mixer_status(m.status, rest);
}

pub fn write_mixer_entry(v: &MixerEntry, out: &mut Vec<Token>)
    ensures
        final(out)@ == old(out)@ + enc_mixer_entry(v@),
{
    wire::write_text(&v.serial, out);
    write_mixer_status(&v.status, out);
    assert(out@ =~= old(out)@ + enc_mixer_entry(v@));
}

pub fn read_mixer_entry(toks: &Vec<Token>, pos: &mut usize) -> (r: Option<MixerEntry>)
    requires
        *old(pos) <= toks@.len(),
    ensures
        match dec_mixer_entry(toks@.skip(*old(pos) as int)) {
            Some(p) => {
                &&& r matches Some(v) && v@ == p.0
                &&& *old(pos) <= *final(pos) <= toks@.len()
                &&& toks@.skip(*final(pos) as int) == p.1
            },
            None => r is None,
        },
{
    let serial = match wire::read_text(toks, pos) {
        Some(x) => x,
        None => {
            return None;
        },
    };
    let status = match read_mixer_status(toks, pos) {
        Some(x) => x,
        None => {
            return None;
        },
    };
    Some(MixerEntry { serial, status })
}

pub open spec fn mixer_entry_views(s: Seq<MixerEntry>) -> Seq<MixerEntryV> {
    Seq::new(s.len(), |i: int| s[i]@)
}

pub open spec fn enc_mixer_entries(s: Seq<MixerEntryV>) -> Seq<Token>
    decreases s.len(),
{
    if s.len() == 0 {
        Seq::empty()
    } else {
        enc_mixer_entry(s[0]) + enc_mixer_entries(s.skip(1))
    }
}

pub open spec fn dec_mixer_entries(s: Seq<Token>, n: int) -> Option<(Seq<MixerEntryV>, Seq<Token>)>
    decreases n,
{
    if n <= 0 {
        Some((Seq::empty(), s))
    } else {
        match dec_mixer_entry(s) {
            Some(p) => match dec_mixer_entries(p.1, n - 1) {
                Some(q) => Some((seq![p.0] + q.0, q.1)),
                None => None,
            },
            None => None,
        }
    }
}

#[verifier::rlimit(100)]
#[verifier::spinoff_prover]
pub proof fn lemma_rt_mixer_entries(s: Seq<MixerEntryV>, rest: Seq<Token>)
    requires
        forall|i: int| 0 <= i < s.len() ==> (#[trigger] s[i]).status.wf(),
    ensures
        dec_mixer_entries(enc_mixer_entries(s) + rest, s.len() as int) == Some((s, rest)),
    decreases s.len(),
{
    if s.len() == 0 {
        assert(enc_mixer_entries(s) + rest =~= rest);
    } else {
        let tail = s.skip(1);
        assert(forall|i: int| 0 <= i < tail.len() ==> (#[trigger] tail[i]).status.wf()) by {
            assert(forall|i: int| 0 <= i < tail.len() ==> tail[i] == s[i + 1]);
        }
        assert((s[0]).status.wf());
        assert(enc_mixer_entries(s) == enc_mixer_entry(s[0]) + enc_mixer_entries(tail));
        wire::lemma_assoc(enc_mixer_entry(s[0]), enc_mixer_entries(tail), rest);
        lemma_rt_mixer_entry(s[0], enc_mixer_entries(tail) + rest);
        lemma_rt_mixer_entries(tail, rest);
        assert(seq![s[0]] + tail =~= s);
    }
}

#[verifier::rlimit(100)]
#[verifier::spinoff_prover]
pub fn write_mixer_entries(v: &Vec<MixerEntry>, out: &mut Vec<Token>)
    ensures
        final(out)@ == old(out)@ + enc_mixer_entries(mixer_entry_views(v@)),
{
    let ghost base = out@;
    let ghost m = mixer_entry_views(v@);
    let mut k: usize = 0;
    proof {
        assert(m.skip(0) =~= m);
    }
    while k < v.len()
        invariant
            k <= v@.len(),
            m == mixer_entry_views(v@),
            m.len() == v@.len(),
            out@ + enc_mixer_entries(m.skip(k as int)) == base + enc_mixer_entries(m),
        decreases v@.len() - k,
    {
        let ghost out0 = out@;
        write_mixer_entry(&v[k], out);
        proof {
            assert(m.skip(k as int).skip(1) =~= m.skip(k as int + 1));
            assert(m.skip(k as int)[0] == m[k as int]);
            wire::lemma_assoc(out0, enc_mixer_entry(m[k as int]), enc_mixer_entries(m.skip(k as int + 1)));
        }
        k += 1;
    }
    proof {
        assert(enc_mixer_entries(m.skip(v@.len() as int)) =~= Seq::empty());
        assert(out@ + Seq::<Token>::empty() =~= out@);
    }
}

#[verifier::loop_isolation(false)]
#[verifier::rlimit(100)]
#[verifier::spinoff_prover]
pub fn read_mixer_entries(toks: &Vec<Token>, pos: &mut usize, n: usize) -> (r: Option<Vec<MixerEntry>>)
    requires
        *old(pos) <= toks@.len(),
    ensures
        match dec_mixer_entries(toks@.skip(*old(pos) as int), n as int) {
            Some(p) => {
                &&& r matches Some(v) && mixer_entry_views(v@) == p.0
                &&& p.0.len() == n
                &&& *old(pos) <= *final(pos) <= toks@.len()
                &&& toks@.skip(*final(pos) as int) == p.1
            },
            None => r is None,
        },
{
    let ghost p0 = *pos as int;
    let mut acc: Vec<MixerEntry> = Vec::new();
    let mut k: usize = 0;
    while k < n
        invariant
            k <= n,
            p0 <= *pos as int,
            *pos <= toks@.len(),
            acc@.len() == k,
            dec_mixer_entries(toks@.skip(p0), n as int) == (match dec_mixer_entries(
                toks@.skip(*pos as int),
                n as int - k as int,
            ) {
                Some(q) => Some::<(Seq<MixerEntryV>, Seq<Token>)>((mixer_entry_views(acc@) + q.0, q.1)),
                None => None::<(Seq<MixerEntryV>, Seq<Token>)>,
            }),
        decreases n - k,
    {
        let ghost before = toks@.skip(*pos as int);
        match read_mixer_entry(toks, pos) {
            Some(x) => {
                proof {
                    if dec_mixer_entries(before, n as int - k as int) matches Some(q) {
                        let qq = dec_mixer_entries(toks@.skip(*pos as int), n as int - k as int - 1);
                        assert(mixer_entry_views(acc@) + (seq![x@] + qq->Some_0.0) =~= mixer_entry_views(acc@).push(x@) + qq->Some_0.0);
                    }
                    assert(mixer_entry_views(acc@.push(x)) =~= mixer_entry_views(acc@).push(x@));
                }
                acc.push(x);
                k += 1;
            },
            None => {
                return None;
            },
        }
    }
    proof {
        assert(dec_mixer_entries(toks@.skip(*pos as int), 0) == Some::<(Seq<MixerEntryV>, Seq<Token>)>((
            Seq::empty(),
            toks@.skip(*pos as int),
        )));
        assert(mixer_entry_views(acc@) + Seq::<MixerEntryV>::empty() =~= mixer_entry_views(acc@));
    }
    Some(acc)
}

pub open spec fn enc_daemon_status(m: DaemonStatusV) -> Seq<Token> {
    wire::enc_text(m.daemon_version) + (wire::enc_u64(m.mixers.len() as u64) + enc_mixer_entries(
        m.mixers,
    )) + enc_paths(m.paths) + enc_files(m.files)
}

pub open spec fn dec_daemon_status(s: Seq<Token>) -> Option<(DaemonStatusV, Seq<Token>)> {
    match wire::dec_text(s) {
        Some(p0) => match wire::dec_u64(p0.1) {
            Some(p1) => if p1.0 <= usize::MAX as u64 {
                match dec_mixer_entries(p1.1, p1.0 as int) {
                    Some(p2) => match dec_paths(p2.1) {
                        Some(p3) => match dec_files(p3.1) {
                            Some(p4) => Some((
                                DaemonStatusV {
                                    daemon_version: p0.0,
                                    mixers: p2.0,
                                    paths: p3.0,
                                    files: p4.0,
                                },
                                p4.1,
                            )),
                            None => None,
                        },
                        None => None,
                    },
                    None => None,
                }
            } else {
                None
            },
            None => None,
        },
        None => None,
    }
}

pub proof fn lemma_rt_daemon_status(m: DaemonStatusV, rest: Seq<Token>)
    requires
        m.wf(),
    ensures
        dec_daemon_status(enc_daemon_status(m) + rest) == Some((m, rest)),
{
    let e0 = wire::enc_text(m.daemon_version);
    let e1 = wire::enc_u64(m.mixers.len() as u64) + enc_mixer_entries(m.mixers);
    let e2 = enc_paths(m.paths);
    let e3 = enc_files(m.files);
    let t4 = rest;
    let t3 = e3 + t4;
    let t2 = e2 + t3;
    let t1 = e1 + t2;
    let t0 = e0 + t1;
    wire::lemma_assoc(e0 + e1 + e2, e3, t4);
    wire::lemma_assoc(e0 + e1, e2, t3);
    wire::lemma_assoc(e0, e1, t2);
    assert(enc_daemon_status(m) + rest == t0);
    wire::lemma_rt_text(m.daemon_version, t1);
    wire::lemma_assoc(wire::enc_u64(m.mixers.len() as u64), enc_mixer_entries(m.mixers), t2);
    wire::lemma_rt_u64(m.mixers.len() as u64, enc_mixer_entries(m.mixers) + t2);
    lemma_rt_mixer_entries(m.mixers, t2);
    lemma_rt_paths(m.paths, t3);
    lemma_rt_files(m.files, t4);
}

/// Round-trip law for the whole serialized envelope: decoding the
/// serialization of any well-formed daemon status model yields exactly
/// that model, with nothing left over.
pub proof fn lemma_daemon_status_round_trip(m: DaemonStatusV)
    requires
        m.wf(),
    ensures
        dec_daemon_status(enc_daemon_status(m)) == Some((m, Seq::<Token>::empty())),
{
    lemma_rt_daemon_status(m, Seq::empty());
    assert(enc_daemon_status(m) + Seq::<Token>::empty() =~= enc_daemon_status(m));
}

pub fn write_daemon_status(v: &DaemonStatus, out: &mut Vec<Token>)
    ensures
        final(out)@ == old(out)@ + enc_daemon_status(v@),
{
    wire::write_text(&v.daemon_version, out);
    wire::write_u64(v.mixers.len() as u64, out);
    write_mixer_entries(&v.mixers, out);
    write_paths(&v.paths, out);
    write_files(&v.files, out);
    proof {
        let b = old(out)@;
        let e0 = wire::enc_text(v@.daemon_version);
        let ec = wire::enc_u64(v@.mixers.len() as u64);
        let em = enc_mixer_entries(v@.mixers);
        let e1 = ec + em;
        let e2 = enc_paths(v@.paths);
        let e3 = enc_files(v@.files);
        wire::lemma_assoc(b, e0, ec);
        wire::lemma_assoc(b, e0 + ec, em);
        wire::lemma_assoc(e0, ec, em);
        wire::lemma_assoc(b, e0 + e1, e2);
        wire::lemma_assoc(b, e0 + e1 + e2, e3);
        assert(out@ == b + enc_daemon_status(v@));
    }
}

pub fn read_daemon_status(toks: &Vec<Token>, pos: &mut usize) -> (r: Option<DaemonStatus>)
    requires
        *old(pos) <= toks@.len(),
    ensures
        match dec_daemon_status(toks@.skip(*old(pos) as int)) {
            Some(p) => {
                &&& r matches Some(v) && v@ == p.0
                &&& *old(pos) <= *final(pos) <= toks@.len()
                &&& toks@.skip(*final(pos) as int) == p.1
            },
            None => r is None,
        },
{
    let daemon_version = match wire::read_text(toks, pos) {
        Some(x) => x,
        None => {
            return None;
        },
    };
    let n = match wire::read_u64(toks, pos) {
        Some(x) => x,
        None => {
            return None;
        },
    };
    if n > usize::MAX as u64 {
        return None;
    }
    let mixers = match read_mixer_entries(toks, pos, n as usize) {
        Some(x) => x,
        None => {
            return None;
        },
    };
    let paths = match read_paths(toks, pos) {
        Some(x) => x,
        None => {
            return None;
        },
    };
    let files = match read_files(toks, pos) {
        Some(x) => x,
        None => {
            return None;
        },
    };
    Some(DaemonStatus { daemon_version, mixers, paths, files })
}

impl DaemonStatus {
    /// Serialize the whole envelope as a token stream.
    pub fn encode(&self) -> (r: Vec<Token>)
        ensures
            r@ == enc_daemon_status(self@),
    {
        let mut out: Vec<Token> = Vec::new();
        write_daemon_status(self, &mut out);
        assert(out@ =~= enc_daemon_status(self@));
        out
    }

    /// Deserialize the whole envelope.  A malformed or trailing payload
    /// fails as a whole.
    pub fn decode(toks: &Vec<Token>) -> (r: Option<DaemonStatus>)
        ensures
            match dec_daemon_status(toks@) {
                Some(p) => if p.1.len() == 0 {
                    r matches Some(v) && v@ == p.0
                } else {
                    r is None
                },
                None => r is None,
            },
    {
        let mut pos: usize = 0;
        proof {
            assert(toks@.skip(0) =~= toks@);
        }
        let v = match read_daemon_status(toks, &mut pos) {
            Some(x) => x,
            None => {
                return None;
            },
        };
        if pos == toks.len() {
            proof {
                assert(toks@.skip(pos as int) =~= Seq::<Token>::empty());
            }
            Some(v)
        } else {
            None
        }
    }
}


} // verus!
