use tropy::colour::{Rgb, RGB};

#[test]
fn fg_rgb() {
    let s = "\x1B[38;2;255;255;255mblaaa\x1B[39m";
    let su = RGB::Fg(Rgb(255, 255, 255), "blaaa").render();
    assert_eq!(s, su);
}

#[test]
fn fg_builder_renders_foreground() {
    let red = Rgb(255, 0, 0);
    assert_eq!(red.fg("warm").render(), "\x1B[38;2;255;0;0mwarm\x1B[39m");
}

#[test]
fn bg_builder_renders_background() {
    let green = Rgb(0, 255, 0);
    assert_eq!(green.bg("calm").render(), "\x1B[48;2;0;255;0mcalm\x1B[49m");
}

#[test]
fn fgbg_builder_renders_both() {
    let fg = Rgb(1, 2, 3);
    let bg = Rgb(10, 20, 30);
    assert_eq!(
        fg.fgbg(&bg, "hi").render(),
        "\x1B[38;2;1;2;3m\x1B[48;2;10;20;30mhi\x1B[49m\x1B[39m"
    );
}

#[test]
fn components_render_in_plain_decimal() {
    assert_eq!(
        Rgb(0, 9, 10).fg("").render(),
        "\x1B[38;2;0;9;10m\x1B[39m"
    );
    assert_eq!(
        Rgb(99, 100, 101).fg("").render(),
        "\x1B[38;2;99;100;101m\x1B[39m"
    );
    assert_eq!(
        Rgb(128, 200, 255).fg("").render(),
        "\x1B[38;2;128;200;255m\x1B[39m"
    );
}

#[test]
fn empty_text_keeps_the_escape_frame() {
    assert_eq!(Rgb(5, 5, 5).bg("").render(), "\x1B[48;2;5;5;5m\x1B[49m");
}
