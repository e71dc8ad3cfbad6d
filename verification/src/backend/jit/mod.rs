pub mod analysis;

pub use analysis::AnalysisStatistics;
pub use analysis::CompiledFunction;
pub use analysis::HotSpot;
pub use analysis::PerformanceAnalyzer;
