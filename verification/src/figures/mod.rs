//! Figures of a run: what is drawn, and where.
mod canvas;
mod color;
mod coordination;
mod history;
mod layout;
mod pca;
mod portrait;
mod scale;
mod svg;

pub use canvas::{spec_tenths, spec_units, tenths, units, Canvas, Shape, ShapeModel};
pub use color::{
    clamp_unit, colormap, hex_byte, hex_color, hex_digit, lerp_of, sample_of, unit, ColorMap,
};
pub use coordination::{
    bar_ticks, color_bar, convergence, coordination, coordination_panel, coordination_size,
    curve_labels, curve_lines, curve_point, curve_points, curve_values, curve_x_ticks, decade_label,
    draw_convergence, draw_heatmap, grid_lines, heat_cell, heat_cells, heat_labels, heat_x_ticks,
    heat_y_ticks, heatmap, largest, legend_entries, legend_y, members, opacity_of,
    render_coordination, row_maxima, row_mean, row_means, run_curves, signed_numeral, tick_count, tick_step,
    Curve, Panel,
};
pub use history::{
    centers_in_archive, consistency_in, example1, example2, example3, history_in, ranked,
    select_history, tells, HistoryError, HistoryModel, RunHistory, Trouble,
};
pub use layout::{follows_centers, grid_layout, layout_is, occurs, ranks, root_above, slots_follow};
pub use pca::{
    along_component, basis_fits, centered_of, coordinate_sum, flattened, gram_member, mean_point,
    point_of, principal_inputs, project_xz, Basis,
};
pub use portrait::{
    dots, greatest_of, is_portrait, least_of, limits_of, padding_of, panel_shapes, panel_x, panel_y,
    panels, path_of, path_shapes, place_in, portrait, portrait_legend, portrait_size, render_xz,
    top_margin, Limits,
};
pub use scale::{extent_of, norm_of, LogNorm};
pub use svg::{
    attribute, box_of, dashes_of, drawing, drawing_of, element, element_of, elements_of, points_of,
};
