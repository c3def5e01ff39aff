//! Core logic of a scheduled screen-capture utility: conversion of a
//! user-selected logical rectangle into physical pixel coordinates, a
//! time-of-day trigger with a duplicate-fire cooldown, the pointer-drag
//! region selector, the capture/crop/encode pipeline, and the persisted
//! configuration document.

pub mod codec;
pub mod config;
pub mod controller;
pub mod error;
pub mod geometry;
pub mod numbers;
pub mod pipeline;
pub mod schedule;
pub mod selector;
