pub mod kontrol_s4_mk3;
