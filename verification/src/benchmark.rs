//! The benchmark engine: records derived from transcription outcomes, the
//! sweep of configurations to compare, the best-effort runner, and the two
//! comparison insights (fastest configuration, cross-device speedups).
use vstd::prelude::*;
use crate::error::TranscriptionError;
use crate::text::str_eq;
use crate::types::{
    config_view, ratio_milli, compute_ratio_milli, valid_config, ModelConfig, ModelConfigView,
    TranscriptionResult, TranscriptionResultView,
};

verus! {

/// A flattened snapshot of one completed benchmark run: the configuration
/// triple, the timing-derived metrics, the segment count, and two fields
/// reserved for future instrumentation (memory usage, accuracy score) that
/// stay unset in this version.
#[derive(Debug, Clone)]
pub struct BenchmarkResult {
    /// Model size name of the run's configuration.
    pub model_size: String,
    /// Device name of the run's configuration.
    pub device: String,
    /// Numeric precision name of the run's configuration.
    pub compute_type: String,
    /// Audio duration, in milliseconds.
    pub audio_duration_ms: u64,
    /// Measured wall-clock transcription time, in milliseconds.
    pub transcription_time_ms: u64,
    /// Audio duration over transcription time, in thousandths.
    pub real_time_factor_milli: u64,
    /// Reserved for future memory instrumentation; never set in this version.
    pub memory_usage_mb: Option<u64>,
    /// Reserved for a future accuracy score, in thousandths; never set in
    /// this version.
    pub accuracy_score_milli: Option<u64>,
    /// How many segments the transcription reported.
    pub segments_count: u64,
}

/// Mathematical image of a `BenchmarkResult`.
pub struct BenchmarkResultView {
    pub model_size: Seq<char>,
    pub device: Seq<char>,
    pub compute_type: Seq<char>,
    pub audio_duration_ms: u64,
    pub transcription_time_ms: u64,
    pub real_time_factor_milli: u64,
    pub memory_usage_mb: Option<u64>,
    pub accuracy_score_milli: Option<u64>,
    pub segments_count: u64,
}

impl View for BenchmarkResult {
    type V = BenchmarkResultView;

    open spec fn view(&self) -> BenchmarkResultView {
        BenchmarkResultView {
            model_size: self.model_size@,
            device: self.device@,
            compute_type: self.compute_type@,
            audio_duration_ms: self.audio_duration_ms,
            transcription_time_ms: self.transcription_time_ms,
            real_time_factor_milli: self.real_time_factor_milli,
            memory_usage_mb: self.memory_usage_mb,
            accuracy_score_milli: self.accuracy_score_milli,
            segments_count: self.segments_count,
        }
    }
}

impl DeepView for BenchmarkResult {
    type V = BenchmarkResultView;

    open spec fn deep_view(&self) -> BenchmarkResultView {
        self.view()
    }
}

/// The record derived from a configuration and a transcription outcome: the
/// triple is copied, the timing metrics and segment count are copied
/// verbatim, and the two instrumentation placeholders stay unset.
pub open spec fn derived_record(
    c: ModelConfigView,
    t: TranscriptionResultView,
) -> BenchmarkResultView {
    BenchmarkResultView {
        model_size: c.model_size,
        device: c.device,
        compute_type: c.compute_type,
        audio_duration_ms: t.duration_ms,
        transcription_time_ms: t.transcription_time_ms,
        real_time_factor_milli: t.real_time_factor_milli,
        memory_usage_mb: None,
        accuracy_score_milli: None,
        segments_count: t.segments.len() as u64,
    }
}

impl BenchmarkResult {
    /// Assembles the record of one completed run; pure and total.
    pub fn from_transcription(config: &ModelConfig, result: &TranscriptionResult) -> (r:
        BenchmarkResult)
        ensures
            r@ == derived_record(config@, result@),
    {
        BenchmarkResult {
            model_size: config.model_size.clone(),
            device: config.device.clone(),
            compute_type: config.compute_type.clone(),
            audio_duration_ms: result.duration_ms,
            transcription_time_ms: result.transcription_time_ms,
            real_time_factor_milli: result.real_time_factor_milli,
            memory_usage_mb: None,
            accuracy_score_milli: None,
            segments_count: result.segments.len() as u64,
        }
    }
}

/// An ordered, possibly duplicate-containing sweep of configurations,
/// assembled incrementally by the sweep generators below; each generator
/// appends to the sweep, so sweeps compose additively.
pub struct Benchmark {
    configs: Vec<ModelConfig>,
}

impl View for Benchmark {
    type V = Seq<ModelConfigView>;

    closed spec fn view(&self) -> Seq<ModelConfigView> {
        self.configs.deep_view()
    }
}

/// The records the runner collects: one per configuration whose attempt
/// succeeded, in sweep order, skipping invalid configurations and failed
/// attempts. `attempts[i]` is what the collaborator returned for the sweep's
/// `i`-th configuration.
pub open spec fn run_spec_from(
    configs: Seq<ModelConfigView>,
    attempts: Seq<Result<TranscriptionResult, TranscriptionError>>,
    i: int,
) -> Seq<BenchmarkResultView>
    decreases configs.len() - i,
{
    if i < 0 || i >= configs.len() {
        Seq::empty()
    } else {
        let rest = run_spec_from(configs, attempts, i + 1);
        if valid_config(configs[i]) && i < attempts.len() && attempts[i] is Ok {
            seq![derived_record(configs[i], attempts[i]->Ok_0@)] + rest
        } else {
            rest
        }
    }
}

/// The whole run, from the first configuration.
pub open spec fn run_spec(
    configs: Seq<ModelConfigView>,
    attempts: Seq<Result<TranscriptionResult, TranscriptionError>>,
) -> Seq<BenchmarkResultView> {
    run_spec_from(configs, attempts, 0)
}

/// The subsequence of valid configurations of a sweep, in sweep order.
pub open spec fn valid_configs_from(configs: Seq<ModelConfigView>, i: int) -> Seq<
    ModelConfigView,
>
    decreases configs.len() - i,
{
    if i < 0 || i >= configs.len() {
        Seq::empty()
    } else {
        let rest = valid_configs_from(configs, i + 1);
        if valid_config(configs[i]) {
            seq![configs[i]] + rest
        } else {
            rest
        }
    }
}

impl Benchmark {
    /// An empty sweep.
    pub fn new() -> (b: Benchmark)
        ensures
            b@ == Seq::<ModelConfigView>::empty(),
    {
        let b = Benchmark { configs: Vec::new() };
        proof {
            assert(b@ =~= Seq::<ModelConfigView>::empty());
        }
        b
    }

    /// The sweep assembled so far, in the order the runner will process it.
    pub fn configs(&self) -> (r: &Vec<ModelConfig>)
        ensures
            r.deep_view() == self@,
    {
        &self.configs
    }

    /// Appends one configuration to the sweep.
    pub fn add_config(&mut self, config: ModelConfig)
        ensures
            final(self)@ == old(self)@.push(config@),
    {
        let ghost before = self@;
        let ghost cv = config@;
        self.configs.push(config);
        proof {
            assert(self@ =~= before.push(cv));
        }
    }

    /// Appends the device-comparison pair for one model size and precision:
    /// the cpu configuration first, then the accelerator (mps) one, in that
    /// fixed order, so downstream pairing can rely on it.
    pub fn add_cpu_vs_metal_comparison(&mut self, model_size: &str, compute_type: &str)
        ensures
            final(self)@ == old(self)@ + seq![
                config_view(model_size@, "cpu"@, compute_type@),
                config_view(model_size@, "mps"@, compute_type@),
            ],
    {
        let ghost before = self@;
        self.configs.push(ModelConfig::new(model_size, "cpu", compute_type));
        self.configs.push(ModelConfig::new(model_size, "mps", compute_type));
        proof {
            assert(self@ =~= before + seq![
                config_view(model_size@, "cpu"@, compute_type@),
                config_view(model_size@, "mps"@, compute_type@),
            ]);
        }
    }

    /// Appends one configuration per entry of the fixed model-size
    /// progression tiny, base, small, medium, in that order, all on the
    /// given device and precision.
    pub fn add_model_size_comparison(&mut self, device: &str, compute_type: &str)
        ensures
            final(self)@ == old(self)@ + seq![
                config_view("tiny"@, device@, compute_type@),
                config_view("base"@, device@, compute_type@),
                config_view("small"@, device@, compute_type@),
                config_view("medium"@, device@, compute_type@),
            ],
    {
        let ghost before = self@;
        self.configs.push(ModelConfig::new("tiny", device, compute_type));
        self.configs.push(ModelConfig::new("base", device, compute_type));
        self.configs.push(ModelConfig::new("small", device, compute_type));
        self.configs.push(ModelConfig::new("medium", device, compute_type));
        proof {
            assert(self@ =~= before + seq![
                config_view("tiny"@, device@, compute_type@),
                config_view("base"@, device@, compute_type@),
                config_view("small"@, device@, compute_type@),
                config_view("medium"@, device@, compute_type@),
            ]);
        }
    }

    /// Appends one configuration per entry of the fixed precision
    /// progression float16, float32, in that order, for the given model size
    /// and device.
    pub fn add_compute_type_comparison(&mut self, model_size: &str, device: &str)
        ensures
            final(self)@ == old(self)@ + seq![
                config_view(model_size@, device@, "float16"@),
                config_view(model_size@, device@, "float32"@),
            ],
    {
        let ghost before = self@;
        self.configs.push(ModelConfig::new(model_size, device, "float16"));
        self.configs.push(ModelConfig::new(model_size, device, "float32"));
        proof {
            assert(self@ =~= before + seq![
                config_view(model_size@, device@, "float16"@),
                config_view(model_size@, device@, "float32"@),
            ]);
        }
    }

    /// Collects the records of the sweep, best-effort: configurations are
    /// processed strictly in sweep order; an invalid configuration or a
    /// failed attempt is skipped and never aborts the sweep. `attempts[i]`
    /// is what the collaborator returned for the sweep's `i`-th
    /// configuration; the caller performs those external calls, one at a
    /// time, and reports each failure on its operator-visible channel.
    pub fn run(&self, attempts: &Vec<Result<TranscriptionResult, TranscriptionError>>) -> (results:
        Vec<BenchmarkResult>)
        requires
            attempts@.len() == self@.len(),
        ensures
            results.deep_view() == run_spec(self@, attempts@),
    {
        let mut results: Vec<BenchmarkResult> = Vec::new();
        let mut i: usize = 0;
        proof {
            assert(results.deep_view() + run_spec_from(self@, attempts@, 0) =~= run_spec(
                self@,
                attempts@,
            ));
        }
        while i < self.configs.len()
            invariant
                i <= self.configs@.len(),
                attempts@.len() == self@.len(),
                self@ == self.configs.deep_view(),
                self@.len() == self.configs@.len(),
                run_spec(self@, attempts@) == results.deep_view() + run_spec_from(
                    self@,
                    attempts@,
                    i as int,
                ),
            decreases self.configs@.len() - i,
        {
            let config = &self.configs[i];
            let ghost results_before = results.deep_view();
            if config.validate().is_ok() {
                match &attempts[i] {
                    Ok(outcome) => {
                        results.push(BenchmarkResult::from_transcription(config, outcome));
                        proof {
                            assert(results.deep_view() =~= results_before.push(
                                derived_record(self@[i as int], attempts@[i as int]->Ok_0@),
                            ));
                            assert(results.deep_view() + run_spec_from(self@, attempts@, i + 1)
                                =~= results_before + run_spec_from(self@, attempts@, i as int));
                        }
                    },
                    Err(_) => {},
                }
            }
            i = i + 1;
        }
        proof {
            assert(results.deep_view() + run_spec_from(self@, attempts@, self@.len() as int)
                =~= results.deep_view());
        }
        results
    }
}

impl Default for Benchmark {
    /// An empty sweep.
    fn default() -> (b: Benchmark)
        ensures
            b@ == Seq::<ModelConfigView>::empty(),
    {
        Benchmark::new()
    }
}

/// Best-effort sweep law: over a sweep of N configurations of which M are
/// invalid, when every valid configuration's attempt succeeds and every
/// invalid one's fails, the run yields exactly N - M records, one per valid
/// configuration, in the relative order of those configurations, each record
/// carrying its configuration's triple. In particular a sweep whose
/// configurations are all invalid yields no records rather than an error.
pub proof fn lemma_run_best_effort(
    configs: Seq<ModelConfigView>,
    attempts: Seq<Result<TranscriptionResult, TranscriptionError>>,
)
    requires
        attempts.len() == configs.len(),
        forall|i: int|
            0 <= i < configs.len() ==> (attempts[i] is Ok <==> valid_config(configs[i])),
    ensures
        run_spec(configs, attempts).len() == valid_configs_from(configs, 0).len(),
        forall|j: int|
            0 <= j < run_spec(configs, attempts).len() ==> config_view(
                #[trigger] run_spec(configs, attempts)[j].model_size,
                run_spec(configs, attempts)[j].device,
                run_spec(configs, attempts)[j].compute_type,
            ) == valid_configs_from(configs, 0)[j],
{
    lemma_run_best_effort_from(configs, attempts, 0);
}

proof fn lemma_run_best_effort_from(
    configs: Seq<ModelConfigView>,
    attempts: Seq<Result<TranscriptionResult, TranscriptionError>>,
    i: int,
)
    requires
        attempts.len() == configs.len(),
        forall|k: int|
            0 <= k < configs.len() ==> (attempts[k] is Ok <==> valid_config(configs[k])),
    ensures
        run_spec_from(configs, attempts, i).len() == valid_configs_from(configs, i).len(),
        forall|j: int|
            0 <= j < run_spec_from(configs, attempts, i).len() ==> config_view(
                #[trigger] run_spec_from(configs, attempts, i)[j].model_size,
                run_spec_from(configs, attempts, i)[j].device,
                run_spec_from(configs, attempts, i)[j].compute_type,
            ) == valid_configs_from(configs, i)[j],
    decreases configs.len() - i,
{
    if 0 <= i && i < configs.len() {
        lemma_run_best_effort_from(configs, attempts, i + 1);
    }
}

/// Whether a record is the cpu-side partner for an accelerator record of the
/// given model size and precision.
pub open spec fn is_cpu_match(
    r: BenchmarkResultView,
    model_size: Seq<char>,
    compute_type: Seq<char>,
) -> bool {
    &&& r.device == "cpu"@
    &&& r.model_size == model_size
    &&& r.compute_type == compute_type
}

/// The first cpu record, scanning from position `i`, that shares the given
/// model size and precision.
pub open spec fn find_cpu_from(
    rs: Seq<BenchmarkResultView>,
    model_size: Seq<char>,
    compute_type: Seq<char>,
    i: int,
) -> Option<BenchmarkResultView>
    decreases rs.len() - i,
{
    if i < 0 || i >= rs.len() {
        None
    } else if is_cpu_match(rs[i], model_size, compute_type) {
        Some(rs[i])
    } else {
        find_cpu_from(rs, model_size, compute_type, i + 1)
    }
}

/// One row of the cross-device comparison: an accelerator record paired with
/// the cpu record of the same model size and precision, and their speedup in
/// thousandths.
#[derive(Debug, Clone)]
pub struct SpeedupComparison {
    /// Shared model size of the pair.
    pub model_size: String,
    /// Shared numeric precision of the pair.
    pub compute_type: String,
    /// The cpu record's real-time factor, in thousandths.
    pub cpu_rtf_milli: u64,
    /// The accelerator record's real-time factor, in thousandths.
    pub accelerator_rtf_milli: u64,
    /// Accelerator over cpu real-time factor, in thousandths.
    pub speedup_milli: u64,
}

/// Mathematical image of a `SpeedupComparison`.
pub struct SpeedupComparisonView {
    pub model_size: Seq<char>,
    pub compute_type: Seq<char>,
    pub cpu_rtf_milli: u64,
    pub accelerator_rtf_milli: u64,
    pub speedup_milli: u64,
}

impl View for SpeedupComparison {
    type V = SpeedupComparisonView;

    open spec fn view(&self) -> SpeedupComparisonView {
        SpeedupComparisonView {
            model_size: self.model_size@,
            compute_type: self.compute_type@,
            cpu_rtf_milli: self.cpu_rtf_milli,
            accelerator_rtf_milli: self.accelerator_rtf_milli,
            speedup_milli: self.speedup_milli,
        }
    }
}

impl DeepView for SpeedupComparison {
    type V = SpeedupComparisonView;

    open spec fn deep_view(&self) -> SpeedupComparisonView {
        self.view()
    }
}

/// The comparison row of a matched pair; the speedup is the accelerator's
/// real-time factor over the cpu's, in thousandths.
pub open spec fn speedup_row(
    a: BenchmarkResultView,
    c: BenchmarkResultView,
) -> SpeedupComparisonView {
    SpeedupComparisonView {
        model_size: a.model_size,
        compute_type: a.compute_type,
        cpu_rtf_milli: c.real_time_factor_milli,
        accelerator_rtf_milli: a.real_time_factor_milli,
        speedup_milli: ratio_milli(a.real_time_factor_milli, c.real_time_factor_milli),
    }
}

/// The comparison rows contributed by records from position `i` on: one row
/// per accelerator (mps) record that has a cpu partner of the same model
/// size and precision, in record order; an unmatched accelerator record
/// contributes nothing.
pub open spec fn speedups_from(rs: Seq<BenchmarkResultView>, i: int) -> Seq<SpeedupComparisonView>
    decreases rs.len() - i,
{
    if i < 0 || i >= rs.len() {
        Seq::empty()
    } else {
        let rest = speedups_from(rs, i + 1);
        if rs[i].device == "mps"@ {
            match find_cpu_from(rs, rs[i].model_size, rs[i].compute_type, 0) {
                Some(c) => seq![speedup_row(rs[i], c)] + rest,
                None => rest,
            }
        } else {
            rest
        }
    }
}

/// All comparison rows of a record sequence.
pub open spec fn speedups_spec(rs: Seq<BenchmarkResultView>) -> Seq<SpeedupComparisonView> {
    speedups_from(rs, 0)
}

/// Finds the first cpu record sharing the given model size and precision.
fn find_cpu_index(
    results: &Vec<BenchmarkResult>,
    model_size: &String,
    compute_type: &String,
) -> (r: Option<usize>)
    ensures
        match r {
            Some(k) => (k as int) < results.deep_view().len() && find_cpu_from(
                results.deep_view(),
                model_size@,
                compute_type@,
                0,
            ) == Some(results.deep_view()[k as int]),
            None => find_cpu_from(results.deep_view(), model_size@, compute_type@, 0) is None,
        },
{
    let ghost rsv = results.deep_view();
    let mut i: usize = 0;
    while i < results.len()
        invariant
            i <= results@.len(),
            rsv == results.deep_view(),
            rsv.len() == results@.len(),
            find_cpu_from(rsv, model_size@, compute_type@, 0) == find_cpu_from(
                rsv,
                model_size@,
                compute_type@,
                i as int,
            ),
        decreases results@.len() - i,
    {
        let row = &results[i];
        if str_eq(row.device.as_str(), "cpu") && str_eq(row.model_size.as_str(), model_size.as_str())
            && str_eq(row.compute_type.as_str(), compute_type.as_str()) {
            return Some(i);
        }
        i = i + 1;
    }
    None
}

/// Pairs every accelerator (mps) record with the first cpu record of the
/// same model size and precision and computes their speedup; an accelerator
/// record with no cpu partner produces no row.
pub fn cross_device_speedups(results: &Vec<BenchmarkResult>) -> (rows: Vec<SpeedupComparison>)
    ensures
        rows.deep_view() == speedups_spec(results.deep_view()),
{
    let ghost rsv = results.deep_view();
    let mut rows: Vec<SpeedupComparison> = Vec::new();
    let mut i: usize = 0;
    proof {
        assert(rows.deep_view() + speedups_from(rsv, 0) =~= speedups_spec(rsv));
    }
    while i < results.len()
        invariant
            i <= results@.len(),
            rsv == results.deep_view(),
            rsv.len() == results@.len(),
            speedups_spec(rsv) == rows.deep_view() + speedups_from(rsv, i as int),
        decreases results@.len() - i,
    {
        let ghost rows_before = rows.deep_view();
        let row = &results[i];
        if str_eq(row.device.as_str(), "mps") {
            match find_cpu_index(results, &row.model_size, &row.compute_type) {
                Some(k) => {
                    let cpu_rtf = results[k].real_time_factor_milli;
                    rows.push(
                        SpeedupComparison {
                            model_size: row.model_size.clone(),
                            compute_type: row.compute_type.clone(),
                            cpu_rtf_milli: cpu_rtf,
                            accelerator_rtf_milli: row.real_time_factor_milli,
                            speedup_milli: compute_ratio_milli(row.real_time_factor_milli, cpu_rtf),
                        },
                    );
                    proof {
                        assert(rows.deep_view() =~= rows_before.push(
                            speedup_row(rsv[i as int], find_cpu_from(
                                rsv,
                                rsv[i as int].model_size,
                                rsv[i as int].compute_type,
                                0,
                            )->Some_0),
                        ));
                        assert(rows.deep_view() + speedups_from(rsv, i + 1) =~= rows_before
                            + speedups_from(rsv, i as int));
                    }
                },
                None => {},
            }
        }
        i = i + 1;
    }
    proof {
        assert(rows.deep_view() + speedups_from(rsv, rsv.len() as int) =~= rows.deep_view());
    }
    rows
}

/// Selects the record with the maximum real-time factor; a tie is broken by
/// first occurrence, so an equal later record is never selected. An empty
/// sequence has no fastest record.
pub fn fastest_configuration_index(results: &Vec<BenchmarkResult>) -> (r: Option<usize>)
    ensures
        match r {
            None => results@.len() == 0,
            Some(i) => {
                &&& (i as int) < results@.len()
                &&& forall|j: int|
                    0 <= j < results@.len() ==> results@[j].real_time_factor_milli
                        <= results@[i as int].real_time_factor_milli
                &&& forall|j: int|
                    0 <= j < i as int ==> results@[j].real_time_factor_milli
                        < results@[i as int].real_time_factor_milli
            },
        },
{
    if results.len() == 0 {
        return None;
    }
    let mut best: usize = 0;
    let mut k: usize = 1;
    while k < results.len()
        invariant
            best < k,
            k <= results@.len(),
            forall|j: int|
                0 <= j < k ==> results@[j].real_time_factor_milli
                    <= results@[best as int].real_time_factor_milli,
            forall|j: int|
                0 <= j < best as int ==> results@[j].real_time_factor_milli
                    < results@[best as int].real_time_factor_milli,
        decreases results@.len() - k,
    {
        if results[k].real_time_factor_milli > results[best].real_time_factor_milli {
            best = k;
        }
        k = k + 1;
    }
    Some(best)
}

} // verus!
