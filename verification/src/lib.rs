//! A verified statistical engine for time-tracking analytics: feature
//! extraction, normalization, a ridge-regression and decision-tree ensemble
//! for weekly-hours forecasting, an isolation-forest anomaly scorer, and a
//! feedback-driven correction module.
//!
//! All real-valued quantities are carried as fixed-point numbers: signed
//! 64-bit integers counting millionths (see [`fixed`]).

#![verifier::loop_isolation(false)]

mod anomaly;
mod cyclic;
mod errors;
mod features;
mod fixed;
mod forecasting;
mod isolation;
mod learning;
mod matrix;
mod normalize;
mod productivity;
mod numeric;
mod recommendations;
mod ridge;
mod rng;
mod service;
mod strings;
mod tree;
mod types;

pub use anomaly::AnomalyDetector;
pub use errors::MlError;
pub use features::FeatureEngineer;
pub use fixed::SCALE;
pub use forecasting::ForecastingModel;
pub use isolation::IsolationForest;
pub use learning::LearningModule;
pub use matrix::Matrix;
pub use normalize::DataNormalizer;
pub use productivity::ProductivityAnalyzer;
pub use recommendations::RecommendationEngine;
pub use ridge::RidgeRegressor;
pub use rng::RandomSource;
pub use service::{detect_request, learn_request, predict_request, productivity_request};
pub use tree::DecisionTreeRegressor;
pub use types::{
    default_no_work_hours, default_sleep_end, default_sleep_start, default_work_on_weekends,
    AnomalyOutput, BreakRecommendations, Context, EfficiencyPoint, ForecastingOutput,
    MLInputData, MLOutputData, OptimalWorkHours, PredictionError, ProductivityOutput, Project,
    ProjectSettings, ProjectStats, RecommendationOutput, Settings, TimesheetEntry,
    UserPreferences, WeekData,
};
