//! Core logic of a small arcade game in which marbles bounce inside a
//! circular arena while hammers swing at them.
//!
//! Rendering, physics integration and input belong to an external engine;
//! this crate holds the game's own rules: conversion between pixel and
//! physics units, placement of the arena wall ring, placement of the
//! marble grid, and the two-phase swing state machine that drives each
//! hammer.
//!
//! All lengths are exact integers in millipixels (1000 per pixel) and all
//! durations are integers in microseconds, so every contract is exact.

pub mod arena;
pub mod geom;
pub mod hammer;
pub mod scene;
pub mod units;
