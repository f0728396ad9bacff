use sercom_hal::itctrl;
use sercom_hal::ofr;

#[test]
fn ofr_reader_extracts_ten_bits() {
    let r = ofr::R::new(0x1234_5678);
    assert_eq!(r.bits(), 0x1234_5678);
    assert_eq!(r.ofrx().bits(), 0x278);
    let full = ofr::R::new(0xffff_ffff);
    assert_eq!(full.ofrx().bits(), 0x3ff);
    assert_eq!(ofr::R::new(0).ofrx().bits(), 0);
}

#[test]
fn ofr_resets_to_zero() {
    assert_eq!(ofr::OFR_SPEC::reset_value(), 0);
    assert_eq!(itctrl::ITCTRL_SPEC::reset_value(), 0);
}

#[test]
fn itctrl_reader_reads_bit_zero() {
    assert!(itctrl::R::new(0x3).integration().bit());
    assert!(itctrl::R::new(0x1).integration().bit());
    assert!(!itctrl::R::new(0x2).integration().bit());
    assert!(!itctrl::R::new(0).integration().bit());
    assert_eq!(itctrl::R::new(7).bits(), 7);
}

#[test]
fn itctrl_writer_sets_and_clears_bit_zero() {
    let w = itctrl::W::new(0).integration().set_bit();
    assert_eq!(w.bits, 1);
    let w = itctrl::W::new(0xff).integration().clear_bit();
    assert_eq!(w.bits, 0xfe);
    let w = itctrl::W::new(0x2).integration().set_bit();
    assert_eq!(w.bits, 0x3);
    let w = itctrl::W::new(0xffff_ffff).integration().bit(false);
    assert_eq!(w.bits, 0xffff_fffe);
    let w = itctrl::W::new(0xffff_fffe).integration().bit(true);
    assert_eq!(w.bits, 0xffff_ffff);
}
